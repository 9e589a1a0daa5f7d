//! Real-to-complex plans: a real-to-half-complex transform along the last selected axis, complex
//! transforms along the others.

use vstd::prelude::*;

use core::marker::PhantomData;

use crate::array::PencilArray;
use crate::error::FftError;
use crate::error::LocalC2cError;
use crate::error::LocalR2cError;
use crate::error::R2cError;
use crate::handoff::Boundary;
use crate::handoff::HalfComplexStorage;
use crate::handoff::LineBuffers;
use crate::layout::AxisSelection;
use crate::layout::Direction;
use crate::layout::DistributedLayout;
use crate::layout::ExtraShape;
use crate::layout::Pencil;
use crate::layout::R2cState;
use crate::layout::TransposeMethod;
use crate::local::LocalC2cPlan;
use crate::local::LocalR2cPlan;
use crate::local::LocalTransform;
use crate::mixed_c2c::run_operation;
use crate::prepare::largest_of;
use crate::prepare::RouteCandidate;
use crate::r2c::len_of;
use crate::r2c::preflight_common;
use crate::r2c::preflight_in_place;
use crate::r2c::r2c_in_place_error;
use crate::r2c::r2c_out_of_place_error;
use crate::r2c::r2c_state_behind;
use crate::r2c::stored_len;
use crate::r2c::R2cInPlaceArray;
use crate::r2c::R2cInPlaceWorkspace;
use crate::r2c::R2cWorkspace;
use crate::r2c::TransformPlanCore;
use crate::r2c_alloc::fresh_r2c_array;
use crate::r2c_alloc::fresh_r2c_buffers;
use crate::r2c_alloc::fresh_r2c_workspace;
use crate::r2c_build::construct_r2c;
use crate::r2c_build::longest_strided;
use crate::r2c_build::r2c_built;
use crate::r2c_build::r2c_planners_answer;
use crate::r2c_build::r2c_refused;
use crate::r2c_build::R2cFacts;
use crate::r2c_build::R2cPlanners;
use crate::registry::Stage;
use crate::request::PlanRequest;
use crate::run::Launch;
use crate::run::OverlapLaunch;
use crate::run::Transacted;
use crate::scalar::Complex;
use crate::scalar::FftReal;
use crate::schedule::Mode;
use crate::shared::capacity_bytes;
use crate::shared::complex_side;
use crate::shared::complex_view_error;
use crate::shared::counts_bytes;
use crate::shared::real_side;
use crate::shared::real_view_error;
use crate::shared::same_frame;
use crate::shared::shared_wf;
use crate::shared::view_complex;
use crate::shared::view_complex_mut;
use crate::shared::view_real;
use crate::shared::view_real_mut;
use crate::transition::eager_exchanges;
use crate::transition::eager_list;
use crate::transition::overlap_supported;
use crate::transition::overlaps;
use crate::transition::TransitionPlan;
use crate::words::word_for;
use crate::words::Operation;
use crate::words::PlanFamily;
use crate::workspace::allocation_error;
use crate::workspace::filled_array;
use crate::workspace::verdict;
use crate::workspace::verdict_of;
use crate::workspace::zero_complex;
use crate::world::world_answers;
use crate::world::World;

verus! {

/// A plan of a real-to-half-complex transform and complex transforms.
#[derive(Debug)]
pub struct R2cPlan<R: FftReal, const N: usize, const M: usize> {
    /// What the plan consists of.
    pub core: TransformPlanCore<N, M>,
    /// The scalars that it works on.
    pub scalar: PhantomData<R>,
}

/// Where a stage of a plan works.
#[derive(Clone, Copy, Debug)]
pub struct StageGeometry<const N: usize, const M: usize> {
    /// The axis that it transforms.
    pub axis: usize,
    /// The layout that it reads.
    pub source: Pencil<N, M>,
    /// The layout that it leaves.
    pub output: Pencil<N, M>,
}

/// A plan that was built as it was asked for.
pub open spec fn r2c_plan_built<R: FftReal, H: Fn([u64; 5]) -> bool, D: Fn(Option<Vec<u64>>, Option<usize>) -> Result<Vec<u64>, FftError>, A: Fn(bool) -> bool, P: Fn([usize; N]) -> Result<Pencil<N, M>, FftError>, Q: Fn(Pencil<N, M>, [usize; N], bool) -> Result<RouteCandidate<N, M>, FftError>, T: Fn(&Vec<Stage<N, M>>, &Vec<usize>, &ExtraShape, TransposeMethod, usize) -> Result<TransitionPlan, FftError>, X: Fn(usize) -> Result<LocalC2cPlan, LocalC2cError>, Y: Fn(usize) -> Result<LocalR2cPlan, LocalR2cError>, E: Fn(u64, &Vec<usize>) -> Result<u64, FftError>, const N: usize, const M: usize>(
    world: World<H, D, A, P, Q, T>,
    planners: R2cPlanners<X, Y, E>,
    facts: R2cFacts<M>,
    request: PlanRequest<AxisSelection<N>, N, M>,
    plan: R2cPlan<R, N, M>,
) -> bool {
    &&& plan.core.wf()
    &&& plan.core.id == facts.id
    &&& plan.core.extra_shape == request.extra_shape
    &&& plan.core.selection == request.transform
    &&& plan.core.layout == request.layout
    &&& plan.core.lens.fft_scratch == largest_of(
        plan.core.locals@.map_values(|local: LocalTransform| local.spec_scratch_len()),
    )
    &&& plan.core.real_lens.fft_scratch == plan.core.lens.fft_scratch
    &&& plan.core.strided_line_len == longest_strided(plan.core)
    &&& r2c_built(world, planners, facts, request, plan.core)
}

/// What is known of a plan before it is built, besides the request.
pub open spec fn r2c_facts_of<R: FftReal, const M: usize>(
    id: u64,
    process_grid: [usize; M],
) -> R2cFacts<M> {
    R2cFacts { id, process_grid, scalar_bytes: R::bytes() as usize }
}

impl<const N: usize, const M: usize> TransformPlanCore<N, M> {
    /// Prepares an out-of-place execution, measured or not.
    pub fn launch<R: FftReal, S, U>(
        &self,
        direction: Direction,
        timed: bool,
        source: &PencilArray<S, N, M>,
        destination: &PencilArray<U, N, M>,
        workspace: &R2cWorkspace<R, N, M>,
    ) -> (launch: Launch<R2cError>)
        requires
            self.wf(),
        ensures
            launch.describes(
                run_operation(PlanFamily::R2c, direction, false, timed),
                direction,
                r2c_out_of_place_error(*self, direction, *source, *destination, *workspace),
                self.itinerary().list(
                    direction,
                    Mode::OutOfPlace,
                    eager_exchanges(self.transitions@, direction),
                ),
            ),
    {
        let eager: Vec<bool> = eager_list(&self.transitions, direction);
        let operation: Operation = if timed {
            Operation::Timed { family: PlanFamily::R2c, direction, in_place: false }
        } else {
            Operation::Run { family: PlanFamily::R2c, direction, in_place: false }
        };
        Launch {
            operation: word_for(operation),
            direction,
            preflight: verdict(
                preflight_common(self, direction, source, destination, workspace),
            ),
            steps: self.route().steps(direction, Mode::OutOfPlace, &eager),
        }
    }

    /// Prepares an in-place execution, measured or not.
    pub fn launch_in_place<R: FftReal>(
        &self,
        direction: Direction,
        timed: bool,
        array: &R2cInPlaceArray<R, N, M>,
        workspace: &R2cInPlaceWorkspace<R, N, M>,
    ) -> (launch: Launch<R2cError>)
        requires
            self.wf(),
        ensures
            exists|capacity: usize|
                stored_len(array.shared) <= capacity && launch.describes(
                    run_operation(PlanFamily::R2c, direction, true, timed),
                    direction,
                    #[trigger] r2c_in_place_error(*self, direction, *array, *workspace, capacity),
                    self.itinerary().list(
                        direction,
                        Mode::InPlace,
                        eager_exchanges(self.transitions@, direction),
                    ),
                ),
    {
        let eager: Vec<bool> = eager_list(&self.transitions, direction);
        let operation: Operation = if timed {
            Operation::Timed { family: PlanFamily::R2c, direction, in_place: true }
        } else {
            Operation::Run { family: PlanFamily::R2c, direction, in_place: true }
        };
        let error: Option<FftError> = preflight_in_place(self, direction, array, workspace);
        Launch {
            operation: word_for(operation),
            direction,
            preflight: verdict(error),
            steps: self.route().steps(direction, Mode::InPlace, &eager),
        }
    }

    /// Prepares an execution with overlap.
    pub fn launch_overlap<R: FftReal, S, U>(
        &self,
        direction: Direction,
        source: &PencilArray<S, N, M>,
        destination: &PencilArray<U, N, M>,
        workspace: &R2cWorkspace<R, N, M>,
    ) -> (launch: OverlapLaunch<R2cError>)
        requires
            self.wf(),
        ensures
            launch.describes(
                (Operation::Overlap { family: PlanFamily::R2c, direction }),
                direction,
                true,
                r2c_out_of_place_error(*self, direction, *source, *destination, *workspace),
                overlaps(self.transitions@, direction),
                self.itinerary().list(
                    direction,
                    Mode::Overlap,
                    eager_exchanges(self.transitions@, direction),
                ),
            ),
    {
        let eager: Vec<bool> = eager_list(&self.transitions, direction);
        OverlapLaunch {
            operation: word_for(Operation::Overlap { family: PlanFamily::R2c, direction }),
            direction,
            transport: true,
            preflight: verdict(
                preflight_common(self, direction, source, destination, workspace),
            ),
            supported: overlap_supported(&self.transitions, direction),
            steps: self.route().steps(direction, Mode::Overlap, &eager),
        }
    }
}

impl<R: FftReal, const N: usize, const M: usize> R2cPlan<R, N, M> {
    /// Asks for a real-to-complex plan that starts from a layout.
    pub fn from_pencil(
        input: Pencil<N, M>,
        extra_shape: ExtraShape,
    ) -> (request: PlanRequest<AxisSelection<N>, N, M>)
        ensures
            request.starts_from(input, extra_shape, request.transform, DistributedLayout::spec_with_method(TransposeMethod::AllToAllv)),
            request.transform.spec_is_all(),
    {
        PlanRequest::on_pencil(input, extra_shape, AxisSelection::all(), DistributedLayout::default())
    }

    /// Asks for a real-to-complex plan that starts from a layout with a transition method.
    pub fn from_pencil_with_method(
        input: Pencil<N, M>,
        extra_shape: ExtraShape,
        method: TransposeMethod,
    ) -> (request: PlanRequest<AxisSelection<N>, N, M>)
        ensures
            request.starts_from(input, extra_shape, request.transform, DistributedLayout::spec_with_method(method)),
            request.transform.spec_is_all(),
    {
        PlanRequest::on_pencil(input, extra_shape, AxisSelection::all(), DistributedLayout::with_method(method))
    }

    /// Asks for a real-to-complex plan that starts from a layout with a layout policy.
    pub fn from_pencil_with_layout(
        input: Pencil<N, M>,
        extra_shape: ExtraShape,
        layout: DistributedLayout,
    ) -> (request: PlanRequest<AxisSelection<N>, N, M>)
        ensures
            request.starts_from(input, extra_shape, request.transform, layout),
            request.transform.spec_is_all(),
    {
        PlanRequest::on_pencil(input, extra_shape, AxisSelection::all(), layout)
    }

    /// Asks for a real-to-complex plan that starts from a layout and transforms the selected
    /// axes.
    pub fn from_pencil_with_selection(
        input: Pencil<N, M>,
        extra_shape: ExtraShape,
        selection: AxisSelection<N>,
    ) -> (request: PlanRequest<AxisSelection<N>, N, M>)
        ensures
            request.starts_from(input, extra_shape, selection, DistributedLayout::spec_with_method(TransposeMethod::AllToAllv)),
    {
        PlanRequest::on_pencil(input, extra_shape, selection, DistributedLayout::default())
    }

    /// Asks for a real-to-complex plan that starts from a layout and transforms the selected axes
    /// with a transition method.
    pub fn from_pencil_with_selection_and_method(
        input: Pencil<N, M>,
        extra_shape: ExtraShape,
        selection: AxisSelection<N>,
        method: TransposeMethod,
    ) -> (request: PlanRequest<AxisSelection<N>, N, M>)
        ensures
            request.starts_from(input, extra_shape, selection, DistributedLayout::spec_with_method(method)),
    {
        PlanRequest::on_pencil(input, extra_shape, selection, DistributedLayout::with_method(method))
    }

    /// Asks for a real-to-complex plan that starts from a layout and transforms the selected axes
    /// with a layout policy.
    pub fn from_pencil_with_selection_and_layout(
        input: Pencil<N, M>,
        extra_shape: ExtraShape,
        selection: AxisSelection<N>,
        layout: DistributedLayout,
    ) -> (request: PlanRequest<AxisSelection<N>, N, M>)
        ensures
            request.starts_from(input, extra_shape, selection, layout),
    {
        PlanRequest::on_pencil(input, extra_shape, selection, layout)
    }

    /// Asks for a real-to-complex plan that starts from the layout of an array.
    pub fn from_array(
        input: &PencilArray<R, N, M>,
    ) -> (request: PlanRequest<AxisSelection<N>, N, M>)
        ensures
            request.starts_from(input.pencil, input.extra_shape, request.transform, DistributedLayout::spec_with_method(TransposeMethod::AllToAllv)),
            request.transform.spec_is_all(),
    {
        PlanRequest::on_array(input, AxisSelection::all(), DistributedLayout::default())
    }

    /// Asks for a real-to-complex plan that starts from the layout of an array with a transition
    /// method.
    pub fn from_array_with_method(
        input: &PencilArray<R, N, M>,
        method: TransposeMethod,
    ) -> (request: PlanRequest<AxisSelection<N>, N, M>)
        ensures
            request.starts_from(input.pencil, input.extra_shape, request.transform, DistributedLayout::spec_with_method(method)),
            request.transform.spec_is_all(),
    {
        PlanRequest::on_array(input, AxisSelection::all(), DistributedLayout::with_method(method))
    }

    /// Asks for a real-to-complex plan that starts from the layout of an array with a layout
    /// policy.
    pub fn from_array_with_layout(
        input: &PencilArray<R, N, M>,
        layout: DistributedLayout,
    ) -> (request: PlanRequest<AxisSelection<N>, N, M>)
        ensures
            request.starts_from(input.pencil, input.extra_shape, request.transform, layout),
            request.transform.spec_is_all(),
    {
        PlanRequest::on_array(input, AxisSelection::all(), layout)
    }

    /// Asks for a real-to-complex plan that starts from the layout of an array and transforms the
    /// selected axes.
    pub fn from_array_with_selection(
        input: &PencilArray<R, N, M>,
        selection: AxisSelection<N>,
    ) -> (request: PlanRequest<AxisSelection<N>, N, M>)
        ensures
            request.starts_from(input.pencil, input.extra_shape, selection, DistributedLayout::spec_with_method(TransposeMethod::AllToAllv)),
    {
        PlanRequest::on_array(input, selection, DistributedLayout::default())
    }

    /// Asks for a real-to-complex plan that starts from the layout of an array and transforms the
    /// selected axes with a transition method.
    pub fn from_array_with_selection_and_method(
        input: &PencilArray<R, N, M>,
        selection: AxisSelection<N>,
        method: TransposeMethod,
    ) -> (request: PlanRequest<AxisSelection<N>, N, M>)
        ensures
            request.starts_from(input.pencil, input.extra_shape, selection, DistributedLayout::spec_with_method(method)),
    {
        PlanRequest::on_array(input, selection, DistributedLayout::with_method(method))
    }

    /// Asks for a real-to-complex plan that starts from the layout of an array and transforms the
    /// selected axes with a layout policy.
    pub fn from_array_with_selection_and_layout(
        input: &PencilArray<R, N, M>,
        selection: AxisSelection<N>,
        layout: DistributedLayout,
    ) -> (request: PlanRequest<AxisSelection<N>, N, M>)
        ensures
            request.starts_from(input.pencil, input.extra_shape, selection, layout),
    {
        PlanRequest::on_array(input, selection, layout)
    }

    /// Asks for a real-to-complex plan that starts from the canonical layout of some extents.
    pub fn from_shape(
        global_shape: [usize; N],
        extra_shape: ExtraShape,
    ) -> (request: PlanRequest<AxisSelection<N>, N, M>)
        ensures
            request.starts_canonically(global_shape, extra_shape, request.transform, DistributedLayout::spec_with_method(TransposeMethod::AllToAllv)),
            request.transform.spec_is_all(),
    {
        PlanRequest::on_shape(global_shape, extra_shape, AxisSelection::all(), DistributedLayout::default())
    }

    /// Asks for a real-to-complex plan that starts from the canonical layout of some extents with
    /// a transition method.
    pub fn from_shape_with_method(
        global_shape: [usize; N],
        extra_shape: ExtraShape,
        method: TransposeMethod,
    ) -> (request: PlanRequest<AxisSelection<N>, N, M>)
        ensures
            request.starts_canonically(global_shape, extra_shape, request.transform, DistributedLayout::spec_with_method(method)),
            request.transform.spec_is_all(),
    {
        PlanRequest::on_shape(global_shape, extra_shape, AxisSelection::all(), DistributedLayout::with_method(method))
    }

    /// Asks for a real-to-complex plan that starts from the canonical layout of some extents with
    /// a layout policy.
    pub fn from_shape_with_layout(
        global_shape: [usize; N],
        extra_shape: ExtraShape,
        layout: DistributedLayout,
    ) -> (request: PlanRequest<AxisSelection<N>, N, M>)
        ensures
            request.starts_canonically(global_shape, extra_shape, request.transform, layout),
            request.transform.spec_is_all(),
    {
        PlanRequest::on_shape(global_shape, extra_shape, AxisSelection::all(), layout)
    }

    /// Asks for a real-to-complex plan that starts from the canonical layout of some extents and
    /// transforms the selected axes.
    pub fn from_shape_with_selection(
        global_shape: [usize; N],
        extra_shape: ExtraShape,
        selection: AxisSelection<N>,
    ) -> (request: PlanRequest<AxisSelection<N>, N, M>)
        ensures
            request.starts_canonically(global_shape, extra_shape, selection, DistributedLayout::spec_with_method(TransposeMethod::AllToAllv)),
    {
        PlanRequest::on_shape(global_shape, extra_shape, selection, DistributedLayout::default())
    }

    /// Asks for a real-to-complex plan that starts from the canonical layout of some extents and
    /// transforms the selected axes with a transition method.
    pub fn from_shape_with_selection_and_method(
        global_shape: [usize; N],
        extra_shape: ExtraShape,
        selection: AxisSelection<N>,
        method: TransposeMethod,
    ) -> (request: PlanRequest<AxisSelection<N>, N, M>)
        ensures
            request.starts_canonically(global_shape, extra_shape, selection, DistributedLayout::spec_with_method(method)),
    {
        PlanRequest::on_shape(global_shape, extra_shape, selection, DistributedLayout::with_method(method))
    }

    /// Asks for a real-to-complex plan that starts from the canonical layout of some extents and
    /// transforms the selected axes with a layout policy.
    pub fn from_shape_with_selection_and_layout(
        global_shape: [usize; N],
        extra_shape: ExtraShape,
        selection: AxisSelection<N>,
        layout: DistributedLayout,
    ) -> (request: PlanRequest<AxisSelection<N>, N, M>)
        ensures
            request.starts_canonically(global_shape, extra_shape, selection, layout),
    {
        PlanRequest::on_shape(global_shape, extra_shape, selection, layout)
    }

    /// Builds the plan that was asked for. Whether there is room rests on the
    /// machine: `construct_r2c_in` says what follows for each answer, and `law_r2c_plan_owed` when a
    /// plan is owed.
    pub fn construct<H: Fn([u64; 5]) -> bool, D: Fn(Option<Vec<u64>>, Option<usize>) -> Result<Vec<u64>, FftError>, A: Fn(bool) -> bool, P: Fn([usize; N]) -> Result<Pencil<N, M>, FftError>, Q: Fn(Pencil<N, M>, [usize; N], bool) -> Result<RouteCandidate<N, M>, FftError>, T: Fn(&Vec<Stage<N, M>>, &Vec<usize>, &ExtraShape, TransposeMethod, usize) -> Result<TransitionPlan, FftError>, X: Fn(usize) -> Result<LocalC2cPlan, LocalC2cError>, Y: Fn(usize) -> Result<LocalR2cPlan, LocalR2cError>, E: Fn(u64, &Vec<usize>) -> Result<u64, FftError>>(
        world: &World<H, D, A, P, Q, T>,
        planners: &R2cPlanners<X, Y, E>,
        id: u64,
        process_grid: [usize; M],
        request: PlanRequest<AxisSelection<N>, N, M>,
    ) -> (result: Result<R2cPlan<R, N, M>, R2cError>)
        requires
            1 <= N <= 0xffff_ffff,
            world_answers(*world),
            r2c_planners_answer(*planners),
            request.extra_shape.wf(),
        ensures
            match result {
                Ok(plan) => r2c_plan_built(
                    *world,
                    *planners,
                    r2c_facts_of::<R, M>(id, process_grid),
                    request,
                    plan,
                ),
                Err(error) => r2c_refused(
                    *world,
                    *planners,
                    r2c_facts_of::<R, M>(id, process_grid),
                    request,
                    error,
                ),
            },
    {
        let facts = R2cFacts { id, process_grid, scalar_bytes: R::scalar_bytes() };
        match construct_r2c(world, planners, &facts, request) {
            Ok(core) => Ok(R2cPlan { core, scalar: PhantomData }),
            Err(error) => Err(error),
        }
    }

    /// Returns the layout that the plan starts from.
    pub fn input_pencil(&self) -> (pencil: Pencil<N, M>)
        requires
            self.core.wf(),
        ensures
            pencil == self.core.spec_input(),
    {
        self.core.stages[0].input
    }

    /// Returns the layout that the plan leaves.
    pub fn output_pencil(&self) -> (pencil: Pencil<N, M>)
        requires
            self.core.wf(),
        ensures
            pencil == self.core.spec_output(),
    {
        self.core.stages[self.core.stages.len() - 1].output
    }

    /// Returns the extra dimensions.
    pub fn extra_shape(&self) -> (shape: &ExtraShape)
        ensures
            *shape == self.core.extra_shape,
    {
        &self.core.extra_shape
    }

    /// Returns how values are exchanged and laid out.
    pub fn layout(&self) -> (layout: DistributedLayout)
        ensures
            layout == self.core.layout,
    {
        self.core.layout
    }

    /// Returns where each stage works.
    pub fn stage_geometry(&self) -> (geometry: Vec<StageGeometry<N, M>>)
        ensures
            geometry@.len() == self.core.stages@.len(),
            forall|i: int|
                0 <= i < geometry@.len() ==> {
                    &&& (#[trigger] geometry@[i]).axis == self.core.stages@[i].axis
                    &&& geometry@[i].source == self.core.stages@[i].input
                    &&& geometry@[i].output == self.core.stages@[i].output
                },
    {
        let mut geometry: Vec<StageGeometry<N, M>> = Vec::new();
        let mut index: usize = 0;
        while index < self.core.stages.len()
            invariant
                index <= self.core.stages@.len(),
                geometry@.len() == index,
                forall|i: int|
                    0 <= i < geometry@.len() ==> {
                        &&& (#[trigger] geometry@[i]).axis == self.core.stages@[i].axis
                        &&& geometry@[i].source == self.core.stages@[i].input
                        &&& geometry@[i].output == self.core.stages@[i].output
                    },
            decreases self.core.stages@.len() - index,
        {
            let stage: Stage<N, M> = self.core.stages[index];
            geometry.push(
                StageGeometry { axis: stage.axis, source: stage.input, output: stage.output },
            );
            index += 1;
        }
        geometry
    }

    /// Returns where the boundary lies and how long its lines are.
    pub fn boundary(&self) -> (boundary: Boundary<N, M>)
        requires
            self.core.wf(),
        ensures
            boundary.wf(),
            boundary == self.core.spec_boundary(),
    {
        self.core.boundary_lines()
    }

    /// Returns the words that processes agree on before an execution over a collection.
    pub fn collection_descriptor(&self) -> (words: &Vec<u64>)
        ensures
            *words == self.core.descriptor,
    {
        &self.core.descriptor
    }

    /// Checks the arguments of a forward execution.
    pub fn preflight_forward(
        &self,
        source: &PencilArray<R, N, M>,
        destination: &PencilArray<Complex<R>, N, M>,
        workspace: &R2cWorkspace<R, N, M>,
    ) -> (result: Result<(), R2cError>)
        requires
            self.core.wf(),
        ensures
            result == verdict_of::<R2cError>(
                r2c_out_of_place_error(
                    self.core,
                    Direction::Forward,
                    *source,
                    *destination,
                    *workspace,
                ),
            ),
    {
        verdict(
            preflight_common(&self.core, Direction::Forward, source, destination, workspace),
        )
    }

    /// Checks the arguments of a reverse execution.
    pub fn preflight_inverse(
        &self,
        source: &PencilArray<Complex<R>, N, M>,
        destination: &PencilArray<R, N, M>,
        workspace: &R2cWorkspace<R, N, M>,
    ) -> (result: Result<(), R2cError>)
        requires
            self.core.wf(),
        ensures
            result == verdict_of::<R2cError>(
                r2c_out_of_place_error(
                    self.core,
                    Direction::Inverse,
                    *source,
                    *destination,
                    *workspace,
                ),
            ),
    {
        verdict(
            preflight_common(&self.core, Direction::Inverse, source, destination, workspace),
        )
    }

    /// Checks the arguments of an in-place execution.
    pub fn preflight_in_place(
        &self,
        direction: Direction,
        array: &R2cInPlaceArray<R, N, M>,
        workspace: &R2cInPlaceWorkspace<R, N, M>,
    ) -> (result: Result<(), R2cError>)
        requires
            self.core.wf(),
        ensures
            exists|capacity: usize|
                stored_len(array.shared) <= capacity && result == verdict_of::<R2cError>(
                    #[trigger] r2c_in_place_error(
                        self.core,
                        direction,
                        *array,
                        *workspace,
                        capacity,
                    ),
                ),
    {
        let error: Option<FftError> = preflight_in_place(
            &self.core,
            direction,
            array,
            workspace,
        );
        verdict(error)
    }

    /// Allocates an array of zeros to start from. Whether there is room rests on the machine;
    /// `PencilArray::from_elem_in` says what follows for each answer.
    pub fn allocate_input(&self) -> (result: Result<PencilArray<R, N, M>, R2cError>)
        requires
            self.core.wf(),
        ensures
            match result {
                Ok(array) => filled_array(
                    array,
                    self.core.spec_input(),
                    self.core.extra_shape,
                    R::zero_bits(),
                ),
                Err(error) => error matches R2cError::Fft(fault) && allocation_error(
                    fault,
                    self.core.spec_input().local_len * self.core.extra_shape.element_count,
                ),
            },
    {
        proof {
            assert(self.core.stages@[0].wf());
        }
        match PencilArray::from_elem(
            &self.core.stages[0].input,
            &self.core.extra_shape,
            R::zero(),
        ) {
            Ok(array) => Ok(array),
            Err(fault) => Err(R2cError::Fft(fault)),
        }
    }

    /// Allocates an array of zeros for the result. Whether there is room rests on the machine;
    /// `PencilArray::from_elem_in` says what follows for each answer.
    pub fn allocate_output(&self) -> (result: Result<PencilArray<Complex<R>, N, M>, R2cError>)
        requires
            self.core.wf(),
        ensures
            match result {
                Ok(array) => filled_array(
                    array,
                    self.core.spec_output(),
                    self.core.extra_shape,
                    [R::zero_bits(), R::zero_bits()],
                ),
                Err(error) => error matches R2cError::Fft(fault) && allocation_error(
                    fault,
                    self.core.spec_output().local_len * self.core.extra_shape.element_count,
                ),
            },
    {
        proof {
            assert(self.core.stages@[self.core.stages@.len() - 1].wf());
        }
        match PencilArray::from_elem(
            &self.core.stages[self.core.stages.len() - 1].output,
            &self.core.extra_shape,
            zero_complex::<R>(),
        ) {
            Ok(array) => Ok(array),
            Err(fault) => Err(R2cError::Fft(fault)),
        }
    }

    /// Allocates the buffers of an out-of-place execution. Whether there is room rests on the
    /// machine; `allocate_buffers_in` says what follows for each answer.
    pub fn allocate_workspace(&self) -> (result: Result<R2cWorkspace<R, N, M>, R2cError>)
        requires
            self.core.wf(),
        ensures
            match result {
                Ok(workspace) => fresh_r2c_workspace(self.core, workspace),
                Err(error) => self.core.buffers_refused(error),
            },
    {
        self.core.allocate_workspace()
    }

    /// Allocates an array for in-place executions. Whether there is room for it rests on the
    /// machine; `allocate_in_place_in` says what follows for each answer.
    pub fn allocate_in_place(&self) -> (result: Result<R2cInPlaceArray<R, N, M>, R2cError>)
        requires
            self.core.wf(),
        ensures
            match result {
                Ok(array) => fresh_r2c_array(self.core, array),
                Err(error) => self.core.array_refused::<R>(error),
            },
    {
        self.core.allocate_in_place()
    }

    /// Allocates the buffers of an in-place execution. Whether there is room rests on the
    /// machine; `allocate_buffers_in` says what follows for each answer.
    pub fn allocate_in_place_workspace(&self) -> (result: Result<
        R2cInPlaceWorkspace<R, N, M>,
        R2cError,
    >)
        requires
            self.core.wf(),
        ensures
            match result {
                Ok(workspace) => fresh_r2c_buffers(self.core, workspace),
                Err(error) => self.core.buffers_refused(error),
            },
    {
        self.core.allocate_buffers()
    }

    /// Prepares the unnormalized transform from `source` to `destination`.
    pub fn forward(
        &self,
        source: &PencilArray<R, N, M>,
        destination: &PencilArray<Complex<R>, N, M>,
        workspace: &R2cWorkspace<R, N, M>,
    ) -> (launch: Launch<R2cError>)
        requires
            self.core.wf(),
        ensures
            launch.describes(
                run_operation(PlanFamily::R2c, Direction::Forward, false, false),
                Direction::Forward,
                r2c_out_of_place_error(
                    self.core,
                    Direction::Forward,
                    *source,
                    *destination,
                    *workspace,
                ),
                self.core.itinerary().list(
                    Direction::Forward,
                    Mode::OutOfPlace,
                    eager_exchanges(self.core.transitions@, Direction::Forward),
                ),
            ),
    {
        self.core.launch(Direction::Forward, false, source, destination, workspace)
    }

    /// Prepares the normalized way back from `source` to `destination`.
    pub fn inverse(
        &self,
        source: &PencilArray<Complex<R>, N, M>,
        destination: &PencilArray<R, N, M>,
        workspace: &R2cWorkspace<R, N, M>,
    ) -> (launch: Launch<R2cError>)
        requires
            self.core.wf(),
        ensures
            launch.describes(
                run_operation(PlanFamily::R2c, Direction::Inverse, false, false),
                Direction::Inverse,
                r2c_out_of_place_error(
                    self.core,
                    Direction::Inverse,
                    *source,
                    *destination,
                    *workspace,
                ),
                self.core.itinerary().list(
                    Direction::Inverse,
                    Mode::OutOfPlace,
                    eager_exchanges(self.core.transitions@, Direction::Inverse),
                ),
            ),
    {
        self.core.launch(Direction::Inverse, false, source, destination, workspace)
    }

    /// Prepares the way back without normalization from `source` to `destination`.
    pub fn backward(
        &self,
        source: &PencilArray<Complex<R>, N, M>,
        destination: &PencilArray<R, N, M>,
        workspace: &R2cWorkspace<R, N, M>,
    ) -> (launch: Launch<R2cError>)
        requires
            self.core.wf(),
        ensures
            launch.describes(
                run_operation(PlanFamily::R2c, Direction::Backward, false, false),
                Direction::Backward,
                r2c_out_of_place_error(
                    self.core,
                    Direction::Backward,
                    *source,
                    *destination,
                    *workspace,
                ),
                self.core.itinerary().list(
                    Direction::Backward,
                    Mode::OutOfPlace,
                    eager_exchanges(self.core.transitions@, Direction::Backward),
                ),
            ),
    {
        self.core.launch(Direction::Backward, false, source, destination, workspace)
    }

    /// Prepares the unnormalized transform in place.
    pub fn forward_in_place(
        &self,
        array: &R2cInPlaceArray<R, N, M>,
        workspace: &R2cInPlaceWorkspace<R, N, M>,
    ) -> (launch: Launch<R2cError>)
        requires
            self.core.wf(),
        ensures
            exists|capacity: usize|
                stored_len(array.shared) <= capacity && launch.describes(
                    run_operation(PlanFamily::R2c, Direction::Forward, true, false),
                    Direction::Forward,
                    #[trigger] r2c_in_place_error(
                        self.core,
                        Direction::Forward,
                        *array,
                        *workspace,
                        capacity,
                    ),
                    self.core.itinerary().list(
                        Direction::Forward,
                        Mode::InPlace,
                        eager_exchanges(self.core.transitions@, Direction::Forward),
                    ),
                ),
    {
        self.core.launch_in_place(Direction::Forward, false, array, workspace)
    }

    /// Prepares the normalized way back in place.
    pub fn inverse_in_place(
        &self,
        array: &R2cInPlaceArray<R, N, M>,
        workspace: &R2cInPlaceWorkspace<R, N, M>,
    ) -> (launch: Launch<R2cError>)
        requires
            self.core.wf(),
        ensures
            exists|capacity: usize|
                stored_len(array.shared) <= capacity && launch.describes(
                    run_operation(PlanFamily::R2c, Direction::Inverse, true, false),
                    Direction::Inverse,
                    #[trigger] r2c_in_place_error(
                        self.core,
                        Direction::Inverse,
                        *array,
                        *workspace,
                        capacity,
                    ),
                    self.core.itinerary().list(
                        Direction::Inverse,
                        Mode::InPlace,
                        eager_exchanges(self.core.transitions@, Direction::Inverse),
                    ),
                ),
    {
        self.core.launch_in_place(Direction::Inverse, false, array, workspace)
    }

    /// Prepares the way back without normalization in place.
    pub fn backward_in_place(
        &self,
        array: &R2cInPlaceArray<R, N, M>,
        workspace: &R2cInPlaceWorkspace<R, N, M>,
    ) -> (launch: Launch<R2cError>)
        requires
            self.core.wf(),
        ensures
            exists|capacity: usize|
                stored_len(array.shared) <= capacity && launch.describes(
                    run_operation(PlanFamily::R2c, Direction::Backward, true, false),
                    Direction::Backward,
                    #[trigger] r2c_in_place_error(
                        self.core,
                        Direction::Backward,
                        *array,
                        *workspace,
                        capacity,
                    ),
                    self.core.itinerary().list(
                        Direction::Backward,
                        Mode::InPlace,
                        eager_exchanges(self.core.transitions@, Direction::Backward),
                    ),
                ),
    {
        self.core.launch_in_place(Direction::Backward, false, array, workspace)
    }

    /// Prepares the unnormalized transform from `source` to `destination`, measured.
    pub fn forward_with_timing(
        &self,
        source: &PencilArray<R, N, M>,
        destination: &PencilArray<Complex<R>, N, M>,
        workspace: &R2cWorkspace<R, N, M>,
    ) -> (launch: Launch<R2cError>)
        requires
            self.core.wf(),
        ensures
            launch.describes(
                run_operation(PlanFamily::R2c, Direction::Forward, false, true),
                Direction::Forward,
                r2c_out_of_place_error(
                    self.core,
                    Direction::Forward,
                    *source,
                    *destination,
                    *workspace,
                ),
                self.core.itinerary().list(
                    Direction::Forward,
                    Mode::OutOfPlace,
                    eager_exchanges(self.core.transitions@, Direction::Forward),
                ),
            ),
    {
        self.core.launch(Direction::Forward, true, source, destination, workspace)
    }

    /// Prepares the normalized way back from `source` to `destination`, measured.
    pub fn inverse_with_timing(
        &self,
        source: &PencilArray<Complex<R>, N, M>,
        destination: &PencilArray<R, N, M>,
        workspace: &R2cWorkspace<R, N, M>,
    ) -> (launch: Launch<R2cError>)
        requires
            self.core.wf(),
        ensures
            launch.describes(
                run_operation(PlanFamily::R2c, Direction::Inverse, false, true),
                Direction::Inverse,
                r2c_out_of_place_error(
                    self.core,
                    Direction::Inverse,
                    *source,
                    *destination,
                    *workspace,
                ),
                self.core.itinerary().list(
                    Direction::Inverse,
                    Mode::OutOfPlace,
                    eager_exchanges(self.core.transitions@, Direction::Inverse),
                ),
            ),
    {
        self.core.launch(Direction::Inverse, true, source, destination, workspace)
    }

    /// Prepares the way back without normalization from `source` to `destination`, measured.
    pub fn backward_with_timing(
        &self,
        source: &PencilArray<Complex<R>, N, M>,
        destination: &PencilArray<R, N, M>,
        workspace: &R2cWorkspace<R, N, M>,
    ) -> (launch: Launch<R2cError>)
        requires
            self.core.wf(),
        ensures
            launch.describes(
                run_operation(PlanFamily::R2c, Direction::Backward, false, true),
                Direction::Backward,
                r2c_out_of_place_error(
                    self.core,
                    Direction::Backward,
                    *source,
                    *destination,
                    *workspace,
                ),
                self.core.itinerary().list(
                    Direction::Backward,
                    Mode::OutOfPlace,
                    eager_exchanges(self.core.transitions@, Direction::Backward),
                ),
            ),
    {
        self.core.launch(Direction::Backward, true, source, destination, workspace)
    }

    /// Prepares the unnormalized transform in place, measured.
    pub fn forward_in_place_with_timing(
        &self,
        array: &R2cInPlaceArray<R, N, M>,
        workspace: &R2cInPlaceWorkspace<R, N, M>,
    ) -> (launch: Launch<R2cError>)
        requires
            self.core.wf(),
        ensures
            exists|capacity: usize|
                stored_len(array.shared) <= capacity && launch.describes(
                    run_operation(PlanFamily::R2c, Direction::Forward, true, true),
                    Direction::Forward,
                    #[trigger] r2c_in_place_error(
                        self.core,
                        Direction::Forward,
                        *array,
                        *workspace,
                        capacity,
                    ),
                    self.core.itinerary().list(
                        Direction::Forward,
                        Mode::InPlace,
                        eager_exchanges(self.core.transitions@, Direction::Forward),
                    ),
                ),
    {
        self.core.launch_in_place(Direction::Forward, true, array, workspace)
    }

    /// Prepares the normalized way back in place, measured.
    pub fn inverse_in_place_with_timing(
        &self,
        array: &R2cInPlaceArray<R, N, M>,
        workspace: &R2cInPlaceWorkspace<R, N, M>,
    ) -> (launch: Launch<R2cError>)
        requires
            self.core.wf(),
        ensures
            exists|capacity: usize|
                stored_len(array.shared) <= capacity && launch.describes(
                    run_operation(PlanFamily::R2c, Direction::Inverse, true, true),
                    Direction::Inverse,
                    #[trigger] r2c_in_place_error(
                        self.core,
                        Direction::Inverse,
                        *array,
                        *workspace,
                        capacity,
                    ),
                    self.core.itinerary().list(
                        Direction::Inverse,
                        Mode::InPlace,
                        eager_exchanges(self.core.transitions@, Direction::Inverse),
                    ),
                ),
    {
        self.core.launch_in_place(Direction::Inverse, true, array, workspace)
    }

    /// Prepares the way back without normalization in place, measured.
    pub fn backward_in_place_with_timing(
        &self,
        array: &R2cInPlaceArray<R, N, M>,
        workspace: &R2cInPlaceWorkspace<R, N, M>,
    ) -> (launch: Launch<R2cError>)
        requires
            self.core.wf(),
        ensures
            exists|capacity: usize|
                stored_len(array.shared) <= capacity && launch.describes(
                    run_operation(PlanFamily::R2c, Direction::Backward, true, true),
                    Direction::Backward,
                    #[trigger] r2c_in_place_error(
                        self.core,
                        Direction::Backward,
                        *array,
                        *workspace,
                        capacity,
                    ),
                    self.core.itinerary().list(
                        Direction::Backward,
                        Mode::InPlace,
                        eager_exchanges(self.core.transitions@, Direction::Backward),
                    ),
                ),
    {
        self.core.launch_in_place(Direction::Backward, true, array, workspace)
    }

    /// Prepares the unnormalized transform with each kernel inside the receive of the exchange
    /// before it, where the exchange is point to point.
    pub fn forward_with_overlap(
        &self,
        source: &PencilArray<R, N, M>,
        destination: &PencilArray<Complex<R>, N, M>,
        workspace: &R2cWorkspace<R, N, M>,
    ) -> (launch: OverlapLaunch<R2cError>)
        requires
            self.core.wf(),
        ensures
            launch.describes(
                (Operation::Overlap { family: PlanFamily::R2c, direction: Direction::Forward }),
                Direction::Forward,
                true,
                r2c_out_of_place_error(
                    self.core,
                    Direction::Forward,
                    *source,
                    *destination,
                    *workspace,
                ),
                overlaps(self.core.transitions@, Direction::Forward),
                self.core.itinerary().list(
                    Direction::Forward,
                    Mode::Overlap,
                    eager_exchanges(self.core.transitions@, Direction::Forward),
                ),
            ),
    {
        self.core.launch_overlap(Direction::Forward, source, destination, workspace)
    }

    /// Prepares the normalized way back with each kernel inside the receive of the exchange
    /// before it, where the exchange is point to point.
    pub fn inverse_with_overlap(
        &self,
        source: &PencilArray<Complex<R>, N, M>,
        destination: &PencilArray<R, N, M>,
        workspace: &R2cWorkspace<R, N, M>,
    ) -> (launch: OverlapLaunch<R2cError>)
        requires
            self.core.wf(),
        ensures
            launch.describes(
                (Operation::Overlap { family: PlanFamily::R2c, direction: Direction::Inverse }),
                Direction::Inverse,
                true,
                r2c_out_of_place_error(
                    self.core,
                    Direction::Inverse,
                    *source,
                    *destination,
                    *workspace,
                ),
                overlaps(self.core.transitions@, Direction::Inverse),
                self.core.itinerary().list(
                    Direction::Inverse,
                    Mode::Overlap,
                    eager_exchanges(self.core.transitions@, Direction::Inverse),
                ),
            ),
    {
        self.core.launch_overlap(Direction::Inverse, source, destination, workspace)
    }

    /// Prepares the way back without normalization with each kernel inside the receive of the
    /// exchange before it, where the exchange is point to point.
    pub fn backward_with_overlap(
        &self,
        source: &PencilArray<Complex<R>, N, M>,
        destination: &PencilArray<R, N, M>,
        workspace: &R2cWorkspace<R, N, M>,
    ) -> (launch: OverlapLaunch<R2cError>)
        requires
            self.core.wf(),
        ensures
            launch.describes(
                (Operation::Overlap { family: PlanFamily::R2c, direction: Direction::Backward }),
                Direction::Backward,
                true,
                r2c_out_of_place_error(
                    self.core,
                    Direction::Backward,
                    *source,
                    *destination,
                    *workspace,
                ),
                overlaps(self.core.transitions@, Direction::Backward),
                self.core.itinerary().list(
                    Direction::Backward,
                    Mode::Overlap,
                    eager_exchanges(self.core.transitions@, Direction::Backward),
                ),
            ),
    {
        self.core.launch_overlap(Direction::Backward, source, destination, workspace)
    }
}

impl<R: FftReal, const N: usize, const M: usize> R2cInPlaceWorkspace<R, N, M> {
    /// Returns the elements of the buffers that hold one boundary line.
    pub fn line_buffers(&self) -> (lines: LineBuffers)
        ensures
            lines.real_source_line == len_of(self.real_source_line),
            lines.real_line == self.real_line@.len(),
            lines.complex_source_line == self.complex_source_line@.len(),
            lines.complex_line == self.complex_line@.len(),
    {
        LineBuffers {
            real_source_line: match &self.real_source_line {
                Some(line) => Some(line.len()),
                None => None,
            },
            real_line: self.real_line.len(),
            complex_source_line: self.complex_source_line.len(),
            complex_line: self.complex_line.len(),
        }
    }
}

impl<R: FftReal, const N: usize, const M: usize> R2cInPlaceArray<R, N, M> {
    /// Returns the state of the array.
    pub fn state(&self) -> (state: R2cState)
        ensures
            state == self.state,
    {
        self.state
    }

    /// Returns the bytes of the allocation, while it is there. How much more it holds than is
    /// stored rests on the allocator; `capacity_bytes_of` says what follows for each capacity.
    pub fn storage_capacity_bytes(&self) -> (bytes: Option<usize>)
        ensures
            counts_bytes(self.shared, bytes),
    {
        capacity_bytes(&self.shared)
    }

    /// Returns the real values of the active layout.
    pub fn real_view(&self) -> (result: Result<&[R], R2cError>)
        requires
            shared_wf(self.shared),
        ensures
            match result {
                Ok(view) => {
                    let values = real_side(self.shared);
                    &&& real_view_error(self.state, self.shared) is None
                    &&& view@ == values.storage@.subrange(0, values.active_len())
                },
                Err(error) => real_view_error(self.state, self.shared) matches Some(fault) && error
                    == R2cError::Fft(fault),
            },
    {
        match view_real(self.state, &self.shared) {
            Ok(view) => Ok(view),
            Err(fault) => Err(R2cError::Fft(fault)),
        }
    }

    /// Returns the real values of the active layout for writing.
    pub fn real_view_mut(&mut self) -> (result: Result<&mut [R], R2cError>)
        requires
            shared_wf(old(self).shared),
        ensures
            final(self).core == old(self).core,
            final(self).state == old(self).state,
            same_frame(old(self).shared, final(self).shared),
            match result {
                Ok(view) => {
                    let before = real_side(old(self).shared);
                    &&& real_view_error(old(self).state, old(self).shared) is None
                    &&& view@ == before.storage@.subrange(0, before.active_len())
                    &&& final(self).shared.storage matches Some(HalfComplexStorage::Real(after))
                        && after.pencils == before.pencils && after.active == before.active
                        && after.extra_shape == before.extra_shape && after.storage@ == final(
                        view
                    )@ + before.storage@.subrange(
                        before.active_len(),
                        before.storage@.len() as int,
                    )
                },
                Err(error) => {
                    &&& real_view_error(old(self).state, old(self).shared) matches Some(fault)
                        && error == R2cError::Fft(fault)
                    &&& final(self).shared == old(self).shared
                },
            },
    {
        match view_real_mut(self.state, &mut self.shared) {
            Ok(view) => Ok(view),
            Err(fault) => Err(R2cError::Fft(fault)),
        }
    }

    /// Returns the complex values of the active layout.
    pub fn complex_view(&self) -> (result: Result<&[Complex<R>], R2cError>)
        requires
            shared_wf(self.shared),
        ensures
            match result {
                Ok(view) => {
                    let values = complex_side(self.shared);
                    &&& complex_view_error(self.state, self.shared) is None
                    &&& view@ == values.storage@.subrange(0, values.active_len())
                },
                Err(error) => complex_view_error(self.state, self.shared) matches Some(fault)
                    && error == R2cError::Fft(fault),
            },
    {
        match view_complex(self.state, &self.shared) {
            Ok(view) => Ok(view),
            Err(fault) => Err(R2cError::Fft(fault)),
        }
    }

    /// Returns the complex values of the active layout for writing.
    pub fn complex_view_mut(&mut self) -> (result: Result<&mut [Complex<R>], R2cError>)
        requires
            shared_wf(old(self).shared),
        ensures
            final(self).core == old(self).core,
            final(self).state == old(self).state,
            same_frame(old(self).shared, final(self).shared),
            match result {
                Ok(view) => {
                    let before = complex_side(old(self).shared);
                    &&& complex_view_error(old(self).state, old(self).shared) is None
                    &&& view@ == before.storage@.subrange(0, before.active_len())
                    &&& final(self).shared.storage matches Some(HalfComplexStorage::Complex(after))
                        && after.pencils == before.pencils && after.active == before.active
                        && after.extra_shape == before.extra_shape && after.storage@ == final(
                        view
                    )@ + before.storage@.subrange(
                        before.active_len(),
                        before.storage@.len() as int,
                    )
                },
                Err(error) => {
                    &&& complex_view_error(old(self).state, old(self).shared) matches Some(fault)
                        && error == R2cError::Fft(fault)
                    &&& final(self).shared == old(self).shared
                },
            },
    {
        match view_complex_mut(self.state, &mut self.shared) {
            Ok(view) => Ok(view),
            Err(fault) => Err(R2cError::Fft(fault)),
        }
    }
}

impl<R: FftReal, const N: usize, const M: usize> Transacted for R2cInPlaceArray<R, N, M> {
    open spec fn interrupted(self) -> Self {
        R2cInPlaceArray { core: self.core, shared: self.shared, state: R2cState::Poisoned }
    }

    open spec fn completed(self, direction: Direction) -> Self {
        R2cInPlaceArray { core: self.core, shared: self.shared, state: r2c_state_behind(direction) }
    }

    fn interrupt(self) -> (marked: Self) {
        R2cInPlaceArray { core: self.core, shared: self.shared, state: R2cState::Poisoned }
    }

    fn complete(self, direction: Direction) -> (done: Self) {
        let state: R2cState = match direction {
            Direction::Forward => R2cState::ComplexOutput,
            _ => R2cState::RealInput,
        };
        R2cInPlaceArray { core: self.core, shared: self.shared, state }
    }
}

} // verus!
