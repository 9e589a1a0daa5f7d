//! Mixed complex plans: a complex or real-to-real transform along each axis.

use vstd::prelude::*;

use core::marker::PhantomData;

use crate::array::PencilArray;
use crate::error::ArrayError;
use crate::error::without_backend;
use crate::error::BackendInitError;
use crate::error::FftError;
use crate::error::LocalC2cError;
use crate::error::LocalR2cError;
use crate::error::LocalR2rError;
use crate::error::MixedError;
use crate::layout::C2cState;
use crate::layout::Direction;
use crate::layout::DistributedLayout;
use crate::layout::ExtraShape;
use crate::layout::FourierDirections;
use crate::layout::Pencil;
use crate::layout::TransposeMethod;
use crate::local::AxisR2rKind;
use crate::local::AxisTransform;
use crate::local::BackendChoice;
use crate::local::BackendKind;
use crate::local::LocalC2cPlan;
use crate::local::LocalR2cPlan;
use crate::local::LocalR2rPlan;
use crate::local::MixedComplexLocal;
use crate::local::PlanOptions;
use crate::mixed_build::forward_signs;
use crate::mixed_build::MixedAsk;
use crate::mixed_build::MixedFacts;
use crate::mixed_c2c::c2c_state_behind;
use crate::mixed_c2c::fresh_mixed_c2c_array;
use crate::mixed_c2c::fresh_mixed_c2c_buffers;
use crate::mixed_c2c::fresh_mixed_c2c_workspace;
use crate::mixed_c2c::mixed_c2c_error;
use crate::mixed_c2c::mixed_c2c_in_place_error;
use crate::mixed_c2c::run_operation;
use crate::mixed_c2c::validate_mixed_c2c_ip;
use crate::mixed_c2c::validate_mixed_c2c_oop;
use crate::mixed_c2c::MixedC2cCore;
use crate::mixed_c2c::MixedC2cInPlaceArray;
use crate::mixed_c2c::MixedC2cInPlaceWorkspace;
use crate::mixed_c2c::MixedC2cWorkspace;
use crate::mixed_c2c_build::construct_mixed_c2c;
use crate::mixed_c2c_build::mixed_c2c_built;
use crate::mixed_c2c_build::mixed_c2c_refused;
use crate::mixed_prepare::planners_answer;
use crate::mixed_prepare::strided_complex_lines;
use crate::mixed_prepare::MixedGraph;
use crate::mixed_prepare::Planners;
use crate::prepare::largest_of;
use crate::prepare::RouteCandidate;
use crate::registry::Stage;
use crate::request::PlanRequest;
use crate::run::Launch;
use crate::run::OverlapLaunch;
use crate::run::Transacted;
use crate::scalar::Complex;
use crate::scalar::FftReal;
use crate::schedule::Mode;
use crate::transition::eager_exchanges;
use crate::transition::TransitionPlan;
use crate::words::Operation;
use crate::words::PlanFamily;
use crate::workspace::allocation_error;
use crate::workspace::filled_array;
use crate::workspace::some_allocation_error;
use crate::workspace::verdict;
use crate::workspace::verdict_of;
use crate::workspace::zero_complex;
use crate::world::world_answers;
use crate::world::World;

verus! {

/// A plan of complex and real-to-real transforms on complex values.
#[derive(Debug)]
pub struct MixedC2cPlan<R: FftReal, const N: usize, const M: usize> {
    /// What the plan consists of.
    pub core: MixedC2cCore<N, M>,
    /// The scalars that it works on.
    pub scalar: PhantomData<R>,
}

/// A plan that was built as it was asked for.
pub open spec fn mixed_c2c_plan_built<R: FftReal, H: Fn([u64; 5]) -> bool, D: Fn(Option<Vec<u64>>, Option<usize>) -> Result<Vec<u64>, FftError>, A: Fn(bool) -> bool, P: Fn([usize; N]) -> Result<Pencil<N, M>, FftError>, Q: Fn(Pencil<N, M>, [usize; N], bool) -> Result<RouteCandidate<N, M>, FftError>, T: Fn(&Vec<Stage<N, M>>, &Vec<usize>, &ExtraShape, TransposeMethod, usize) -> Result<TransitionPlan, FftError>, C: Fn(BackendChoice, usize, bool) -> Result<LocalC2cPlan, BackendInitError<LocalC2cError>>, K: Fn(BackendChoice, AxisR2rKind, usize) -> Result<LocalR2rPlan, BackendInitError<LocalR2rError>>, B: Fn(BackendChoice, usize) -> Result<LocalR2cPlan, BackendInitError<LocalR2cError>>, const N: usize, const M: usize>(
    world: World<H, D, A, P, Q, T>,
    planners: Planners<C, K, B>,
    facts: MixedFacts<M>,
    request: PlanRequest<MixedAsk<N>, N, M>,
    plan: MixedC2cPlan<R, N, M>,
) -> bool {
    &&& plan.core.wf()
    &&& plan.core.id == facts.id
    &&& plan.core.extra_shape == request.extra_shape
    &&& plan.core.graph == request.transform.graph
    &&& plan.core.layout == request.layout
    &&& plan.core.strict_array_identity == request.transform.spec_strict()
    &&& plan.core.embedding_len == largest_of(
        plan.core.locals@.map_values(|local: MixedComplexLocal| local.spec_embedding_len()),
    )
    &&& plan.core.strided_line_len == largest_of(
        strided_complex_lines(plan.core.stages@, plan.core.locals@),
    )
    &&& mixed_c2c_built(world, planners, facts, request, plan.core)
}

/// What is known of a plan before it is built, besides the request.
pub open spec fn facts_of<R: FftReal, const M: usize>(
    id: u64,
    process_grid: [usize; M],
    backend_words: [u64; 7],
) -> MixedFacts<M> {
    MixedFacts { id, process_grid, scalar_bytes: R::bytes() as usize, backend_words }
}

impl<R: FftReal, const N: usize, const M: usize> MixedC2cPlan<R, N, M> {
    /// Asks for a mixed complex plan that starts from a layout.
    pub fn from_pencil(
        input: Pencil<N, M>,
        extra_shape: ExtraShape,
        transforms: [AxisTransform; N],
    ) -> (request: PlanRequest<MixedAsk<N>, N, M>)
        ensures
            request.starts_from(input, extra_shape, request.transform, DistributedLayout::spec_with_method(TransposeMethod::AllToAllv)),
            request.transform.plain(transforms),
    {
        PlanRequest::on_pencil(input, extra_shape, MixedAsk::of_transforms(transforms), DistributedLayout::default())
    }

    /// Asks for a mixed complex plan that starts from a layout with a transition method.
    pub fn from_pencil_with_method(
        input: Pencil<N, M>,
        extra_shape: ExtraShape,
        transforms: [AxisTransform; N],
        method: TransposeMethod,
    ) -> (request: PlanRequest<MixedAsk<N>, N, M>)
        ensures
            request.starts_from(input, extra_shape, request.transform, DistributedLayout::spec_with_method(method)),
            request.transform.plain(transforms),
    {
        PlanRequest::on_pencil(input, extra_shape, MixedAsk::of_transforms(transforms), DistributedLayout::with_method(method))
    }

    /// Asks for a mixed complex plan that starts from a layout with a layout policy.
    pub fn from_pencil_with_layout(
        input: Pencil<N, M>,
        extra_shape: ExtraShape,
        transforms: [AxisTransform; N],
        layout: DistributedLayout,
    ) -> (request: PlanRequest<MixedAsk<N>, N, M>)
        ensures
            request.starts_from(input, extra_shape, request.transform, layout),
            request.transform.plain(transforms),
    {
        PlanRequest::on_pencil(input, extra_shape, MixedAsk::of_transforms(transforms), layout)
    }

    /// Asks for a mixed complex plan that starts from the layout of an array.
    pub fn from_array(
        input: &PencilArray<Complex<R>, N, M>,
        transforms: [AxisTransform; N],
    ) -> (request: PlanRequest<MixedAsk<N>, N, M>)
        ensures
            request.starts_from(input.pencil, input.extra_shape, request.transform, DistributedLayout::spec_with_method(TransposeMethod::AllToAllv)),
            request.transform.plain(transforms),
    {
        PlanRequest::on_array(input, MixedAsk::of_transforms(transforms), DistributedLayout::default())
    }

    /// Asks for a mixed complex plan that starts from the layout of an array with a transition
    /// method.
    pub fn from_array_with_method(
        input: &PencilArray<Complex<R>, N, M>,
        transforms: [AxisTransform; N],
        method: TransposeMethod,
    ) -> (request: PlanRequest<MixedAsk<N>, N, M>)
        ensures
            request.starts_from(input.pencil, input.extra_shape, request.transform, DistributedLayout::spec_with_method(method)),
            request.transform.plain(transforms),
    {
        PlanRequest::on_array(input, MixedAsk::of_transforms(transforms), DistributedLayout::with_method(method))
    }

    /// Asks for a mixed complex plan that starts from the layout of an array with a layout
    /// policy.
    pub fn from_array_with_layout(
        input: &PencilArray<Complex<R>, N, M>,
        transforms: [AxisTransform; N],
        layout: DistributedLayout,
    ) -> (request: PlanRequest<MixedAsk<N>, N, M>)
        ensures
            request.starts_from(input.pencil, input.extra_shape, request.transform, layout),
            request.transform.plain(transforms),
    {
        PlanRequest::on_array(input, MixedAsk::of_transforms(transforms), layout)
    }

    /// Asks for a mixed complex plan that starts from the canonical layout of some extents.
    pub fn from_shape(
        global_shape: [usize; N],
        extra_shape: ExtraShape,
        transforms: [AxisTransform; N],
    ) -> (request: PlanRequest<MixedAsk<N>, N, M>)
        ensures
            request.starts_canonically(global_shape, extra_shape, request.transform, DistributedLayout::spec_with_method(TransposeMethod::AllToAllv)),
            request.transform.plain(transforms),
    {
        PlanRequest::on_shape(global_shape, extra_shape, MixedAsk::of_transforms(transforms), DistributedLayout::default())
    }

    /// Asks for a mixed complex plan that starts from the canonical layout of some extents with a
    /// transition method.
    pub fn from_shape_with_method(
        global_shape: [usize; N],
        extra_shape: ExtraShape,
        transforms: [AxisTransform; N],
        method: TransposeMethod,
    ) -> (request: PlanRequest<MixedAsk<N>, N, M>)
        ensures
            request.starts_canonically(global_shape, extra_shape, request.transform, DistributedLayout::spec_with_method(method)),
            request.transform.plain(transforms),
    {
        PlanRequest::on_shape(global_shape, extra_shape, MixedAsk::of_transforms(transforms), DistributedLayout::with_method(method))
    }

    /// Asks for a mixed complex plan that starts from the canonical layout of some extents with a
    /// layout policy.
    pub fn from_shape_with_layout(
        global_shape: [usize; N],
        extra_shape: ExtraShape,
        transforms: [AxisTransform; N],
        layout: DistributedLayout,
    ) -> (request: PlanRequest<MixedAsk<N>, N, M>)
        ensures
            request.starts_canonically(global_shape, extra_shape, request.transform, layout),
            request.transform.plain(transforms),
    {
        PlanRequest::on_shape(global_shape, extra_shape, MixedAsk::of_transforms(transforms), layout)
    }

    /// Asks for a plan that starts from the canonical layout of some extents, with signs.
    pub fn from_shape_with_fft_directions(
        global_shape: [usize; N],
        extra_shape: ExtraShape,
        transforms: [AxisTransform; N],
        directions: FourierDirections<N>,
    ) -> (request: PlanRequest<MixedAsk<N>, N, M>)
        ensures
            request.starts_canonically(
                global_shape,
                extra_shape,
                (MixedAsk {
                    graph: MixedGraph { transforms, directions, backend: BackendChoice::RustFft },
                    rebuilt: false,
                }),
                DistributedLayout::spec_with_method(TransposeMethod::AllToAllv),
            ),
    {
        PlanRequest::on_shape(
            global_shape,
            extra_shape,
            MixedAsk {
                graph: MixedGraph { transforms, directions, backend: BackendChoice::RustFft },
                rebuilt: false,
            },
            DistributedLayout::default(),
        )
    }

    /// Asks for a plan that starts from the canonical layout of some extents, with the native
    /// kernels.
    pub fn from_shape_with_fftw(
        global_shape: [usize; N],
        extra_shape: ExtraShape,
        transforms: [AxisTransform; N],
        options: PlanOptions,
    ) -> (request: PlanRequest<MixedAsk<N>, N, M>)
        ensures
            request.starts_canonically(
                global_shape,
                extra_shape,
                request.transform,
                DistributedLayout::spec_with_method(TransposeMethod::AllToAllv),
            ),
            request.transform.graph.transforms == transforms,
            forward_signs(request.transform.graph.directions),
            request.transform.graph.backend == BackendChoice::Fftw(options),
            !request.transform.rebuilt,
    {
        PlanRequest::on_shape(
            global_shape,
            extra_shape,
            MixedAsk {
                graph: MixedGraph {
                    transforms,
                    directions: FourierDirections::default(),
                    backend: BackendChoice::Fftw(options),
                },
                rebuilt: false,
            },
            DistributedLayout::default(),
        )
    }

    /// Asks for this plan with other signs. Arrays of this plan do not fit the new one.
    pub fn with_fft_directions(&self, directions: FourierDirections<N>) -> (request: PlanRequest<
        MixedAsk<N>,
        N,
        M,
    >)
        requires
            self.core.wf(),
        ensures
            request.starts_canonically(
                self.core.spec_input().global_shape,
                self.core.extra_shape,
                (MixedAsk {
                    graph: MixedGraph {
                        transforms: self.core.graph.transforms,
                        directions,
                        backend: self.core.graph.backend,
                    },
                    rebuilt: true,
                }),
                self.core.layout,
            ),
    {
        PlanRequest::on_shape(
            self.core.stages[0].input.global_shape,
            self.core.extra_shape.duplicate(),
            MixedAsk {
                graph: MixedGraph {
                    transforms: self.core.graph.transforms,
                    directions,
                    backend: self.core.graph.backend,
                },
                rebuilt: true,
            },
            self.core.layout,
        )
    }

    /// Asks for this plan with the native kernels. Arrays of this plan do not fit the new one.
    pub fn with_fftw(&self, options: PlanOptions) -> (request: PlanRequest<MixedAsk<N>, N, M>)
        requires
            self.core.wf(),
        ensures
            request.starts_canonically(
                self.core.spec_input().global_shape,
                self.core.extra_shape,
                (MixedAsk {
                    graph: MixedGraph {
                        transforms: self.core.graph.transforms,
                        directions: self.core.graph.directions,
                        backend: BackendChoice::Fftw(options),
                    },
                    rebuilt: true,
                }),
                self.core.layout,
            ),
    {
        PlanRequest::on_shape(
            self.core.stages[0].input.global_shape,
            self.core.extra_shape.duplicate(),
            MixedAsk {
                graph: MixedGraph {
                    transforms: self.core.graph.transforms,
                    directions: self.core.graph.directions,
                    backend: BackendChoice::Fftw(options),
                },
                rebuilt: true,
            },
            self.core.layout,
        )
    }

    /// Builds the plan that was asked for, and tells which backend failed if it cannot. Whether there
    /// is room rests on the machine: `construct_mixed_c2c_in` says what follows for each answer, and
    /// `law_mixed_c2c_plan_owed` when a plan is owed.
    pub fn construct_with_backend<H: Fn([u64; 5]) -> bool, D: Fn(Option<Vec<u64>>, Option<usize>) -> Result<Vec<u64>, FftError>, A: Fn(bool) -> bool, P: Fn([usize; N]) -> Result<Pencil<N, M>, FftError>, Q: Fn(Pencil<N, M>, [usize; N], bool) -> Result<RouteCandidate<N, M>, FftError>, T: Fn(&Vec<Stage<N, M>>, &Vec<usize>, &ExtraShape, TransposeMethod, usize) -> Result<TransitionPlan, FftError>, C: Fn(BackendChoice, usize, bool) -> Result<LocalC2cPlan, BackendInitError<LocalC2cError>>, K: Fn(BackendChoice, AxisR2rKind, usize) -> Result<LocalR2rPlan, BackendInitError<LocalR2rError>>, B: Fn(BackendChoice, usize) -> Result<LocalR2cPlan, BackendInitError<LocalR2cError>>, V: Fn(BackendChoice) -> [u64; 7]>(
        world: &World<H, D, A, P, Q, T>,
        planners: &Planners<C, K, B>,
        id: u64,
        process_grid: [usize; M],
        words: &V,
        request: PlanRequest<MixedAsk<N>, N, M>,
    ) -> (result: Result<MixedC2cPlan<R, N, M>, BackendInitError<MixedError>>)
        requires
            N >= 1,
            world_answers(*world),
            planners_answer(*planners),
            request.extra_shape.wf(),
            forall|backend: BackendChoice| #[trigger] words.requires((backend,)),
        ensures
            exists|backend_words: [u64; 7]|
                {
                    &&& #[trigger] words.ensures((request.transform.graph.backend,), backend_words)
                    &&& match result {
                        Ok(plan) => mixed_c2c_plan_built(
                            *world,
                            *planners,
                            facts_of::<R, M>(id, process_grid, backend_words),
                            request,
                            plan,
                        ),
                        Err(error) => mixed_c2c_refused(
                            *world,
                            *planners,
                            facts_of::<R, M>(id, process_grid, backend_words),
                            request,
                            error,
                        ),
                    }
                },
    {
        let backend_words: [u64; 7] = words(request.transform.graph.backend);
        assert(words.ensures((request.transform.graph.backend,), backend_words));
        let facts = MixedFacts {
            id,
            process_grid,
            scalar_bytes: R::scalar_bytes(),
            backend_words,
        };
        match construct_mixed_c2c(world, planners, &facts, request) {
            Ok(core) => Ok(MixedC2cPlan { core, scalar: PhantomData }),
            Err(error) => Err(error),
        }
    }

    /// Builds the plan that was asked for. Whether there is room rests on the machine:
    /// `construct_mixed_c2c_in` says what follows for each answer, and `law_mixed_c2c_plan_owed`
    /// when a plan is owed.
    pub fn construct<H: Fn([u64; 5]) -> bool, D: Fn(Option<Vec<u64>>, Option<usize>) -> Result<Vec<u64>, FftError>, A: Fn(bool) -> bool, P: Fn([usize; N]) -> Result<Pencil<N, M>, FftError>, Q: Fn(Pencil<N, M>, [usize; N], bool) -> Result<RouteCandidate<N, M>, FftError>, T: Fn(&Vec<Stage<N, M>>, &Vec<usize>, &ExtraShape, TransposeMethod, usize) -> Result<TransitionPlan, FftError>, C: Fn(BackendChoice, usize, bool) -> Result<LocalC2cPlan, BackendInitError<LocalC2cError>>, K: Fn(BackendChoice, AxisR2rKind, usize) -> Result<LocalR2rPlan, BackendInitError<LocalR2rError>>, B: Fn(BackendChoice, usize) -> Result<LocalR2cPlan, BackendInitError<LocalR2cError>>, V: Fn(BackendChoice) -> [u64; 7]>(
        world: &World<H, D, A, P, Q, T>,
        planners: &Planners<C, K, B>,
        id: u64,
        process_grid: [usize; M],
        words: &V,
        request: PlanRequest<MixedAsk<N>, N, M>,
    ) -> (result: Result<MixedC2cPlan<R, N, M>, MixedError>)
        requires
            N >= 1,
            world_answers(*world),
            planners_answer(*planners),
            request.extra_shape.wf(),
            forall|backend: BackendChoice| #[trigger] words.requires((backend,)),
        ensures
            exists|backend_words: [u64; 7]|
                {
                    &&& #[trigger] words.ensures((request.transform.graph.backend,), backend_words)
                    &&& match result {
                        Ok(plan) => mixed_c2c_plan_built(
                            *world,
                            *planners,
                            facts_of::<R, M>(id, process_grid, backend_words),
                            request,
                            plan,
                        ),
                        Err(error) => exists|reason: BackendInitError<MixedError>|
                            {
                                &&& #[trigger] mixed_c2c_refused(
                                    *world,
                                    *planners,
                                    facts_of::<R, M>(id, process_grid, backend_words),
                                    request,
                                    reason,
                                )
                                &&& error == match reason {
                                    BackendInitError::Local(local) => local,
                                    _ => MixedError::Fft(FftError::PreparationFailed),
                                }
                            },
                    }
                },
    {
        match Self::construct_with_backend(
            world,
            planners,
            id,
            process_grid,
            words,
            request,
        ) {
            Ok(plan) => Ok(plan),
            Err(reason) => Err(without_backend(reason)),
        }
    }

    /// Returns what is done along each axis.
    pub fn transforms(&self) -> (transforms: [AxisTransform; N])
        ensures
            transforms == self.core.graph.transforms,
    {
        self.core.graph.transforms
    }

    /// Returns what is done along each axis, under another name.
    pub fn axis_transforms(&self) -> (transforms: [AxisTransform; N])
        ensures
            transforms == self.core.graph.transforms,
    {
        self.transforms()
    }

    /// Returns the layout that the plan starts from.
    pub fn input_pencil(&self) -> (pencil: Pencil<N, M>)
        requires
            self.core.wf(),
        ensures
            pencil == self.core.spec_input(),
    {
        self.core.stages[0].input
    }

    /// Returns the layout that the plan leaves.
    pub fn output_pencil(&self) -> (pencil: Pencil<N, M>)
        requires
            self.core.wf(),
        ensures
            pencil == self.core.spec_output(),
    {
        self.core.stages[self.core.stages.len() - 1].output
    }

    /// Returns the extra dimensions.
    pub fn extra_shape(&self) -> (shape: &ExtraShape)
        ensures
            *shape == self.core.extra_shape,
    {
        &self.core.extra_shape
    }

    /// Returns how values are exchanged and laid out.
    pub fn layout(&self) -> (layout: DistributedLayout)
        ensures
            layout == self.core.layout,
    {
        self.core.layout
    }

    /// Returns the sign of each axis.
    pub fn fft_directions(&self) -> (directions: FourierDirections<N>)
        ensures
            directions == self.core.graph.directions,
    {
        self.core.graph.directions
    }

    /// Returns which implementation runs the kernels.
    pub fn backend_kind(&self) -> (kind: BackendKind)
        ensures
            kind == self.core.graph.backend.spec_kind(),
    {
        self.core.graph.backend.kind()
    }

    /// Returns the native planning options, if the native implementation was chosen.
    pub fn options(&self) -> (options: Option<PlanOptions>)
        ensures
            options == match self.core.graph.backend {
                BackendChoice::RustFft => None,
                BackendChoice::Fftw(chosen) => Some(chosen),
            },
    {
        self.core.graph.backend.options()
    }

    /// Returns the words that processes agree on before an execution over a collection.
    pub fn collection_descriptor(&self) -> (words: &Vec<u64>)
        ensures
            *words == self.core.descriptor,
    {
        &self.core.descriptor
    }

    /// Checks the arguments of a forward execution over a collection.
    pub fn collection_preflight_forward(
        &self,
        source: &PencilArray<Complex<R>, N, M>,
        destination: &PencilArray<Complex<R>, N, M>,
        workspace: &MixedC2cWorkspace<R, N, M>,
    ) -> (result: Result<(), MixedError>)
        requires
            self.core.wf(),
        ensures
            result == verdict_of::<MixedError>(
                mixed_c2c_error(
                    self.core,
                    Direction::Forward,
                    *source,
                    *destination,
                    *workspace,
                ),
            ),
    {
        verdict(
            validate_mixed_c2c_oop(
                &self.core,
                Direction::Forward,
                source,
                destination,
                workspace,
            ),
        )
    }

    /// Checks the arguments of a reverse execution over a collection.
    pub fn collection_preflight_inverse(
        &self,
        source: &PencilArray<Complex<R>, N, M>,
        destination: &PencilArray<Complex<R>, N, M>,
        workspace: &MixedC2cWorkspace<R, N, M>,
    ) -> (result: Result<(), MixedError>)
        requires
            self.core.wf(),
        ensures
            result == verdict_of::<MixedError>(
                mixed_c2c_error(
                    self.core,
                    Direction::Inverse,
                    *source,
                    *destination,
                    *workspace,
                ),
            ),
    {
        verdict(
            validate_mixed_c2c_oop(
                &self.core,
                Direction::Inverse,
                source,
                destination,
                workspace,
            ),
        )
    }

    /// Checks the arguments of an in-place execution over a collection.
    pub fn collection_preflight_in_place(
        &self,
        direction: Direction,
        array: &MixedC2cInPlaceArray<R, N, M>,
        workspace: &MixedC2cInPlaceWorkspace<R, N, M>,
    ) -> (result: Result<(), MixedError>)
        requires
            self.core.wf(),
        ensures
            result == verdict_of::<MixedError>(
                mixed_c2c_in_place_error(self.core, direction, *array, *workspace),
            ),
    {
        verdict(validate_mixed_c2c_ip(&self.core, direction, array, workspace))
    }

    /// Allocates an array of zeros to start from. Whether there is room rests on the machine;
    /// `PencilArray::from_elem_in` says what follows for each answer.
    pub fn allocate_input(&self) -> (result: Result<PencilArray<Complex<R>, N, M>, MixedError>)
        requires
            self.core.wf(),
        ensures
            match result {
                Ok(array) => filled_array(
                    array,
                    self.core.spec_input(),
                    self.core.extra_shape,
                    [R::zero_bits(), R::zero_bits()],
                ),
                Err(error) => error matches MixedError::Fft(fault) && allocation_error(
                    fault,
                    self.core.spec_input().local_len * self.core.extra_shape.element_count,
                ),
            },
    {
        proof {
            assert(self.core.stages@[0].wf());
        }
        match PencilArray::from_elem(
            &self.core.stages[0].input,
            &self.core.extra_shape,
            zero_complex::<R>(),
        ) {
            Ok(array) => Ok(array),
            Err(fault) => Err(MixedError::Fft(fault)),
        }
    }

    /// Allocates an array of zeros for the result. Whether there is room rests on the machine;
    /// `PencilArray::from_elem_in` says what follows for each answer.
    pub fn allocate_output(&self) -> (result: Result<PencilArray<Complex<R>, N, M>, MixedError>)
        requires
            self.core.wf(),
        ensures
            match result {
                Ok(array) => filled_array(
                    array,
                    self.core.spec_output(),
                    self.core.extra_shape,
                    [R::zero_bits(), R::zero_bits()],
                ),
                Err(error) => error matches MixedError::Fft(fault) && allocation_error(
                    fault,
                    self.core.spec_output().local_len * self.core.extra_shape.element_count,
                ),
            },
    {
        proof {
            assert(self.core.stages@[self.core.stages@.len() - 1].wf());
        }
        match PencilArray::from_elem(
            &self.core.stages[self.core.stages.len() - 1].output,
            &self.core.extra_shape,
            zero_complex::<R>(),
        ) {
            Ok(array) => Ok(array),
            Err(fault) => Err(MixedError::Fft(fault)),
        }
    }

    /// Allocates the buffers of an out-of-place execution. Whether there is room rests on the
    /// machine; `allocate_buffers_in` says what follows for each answer.
    pub fn allocate_workspace(&self) -> (result: Result<MixedC2cWorkspace<R, N, M>, MixedError>)
        requires
            self.core.wf(),
        ensures
            match result {
                Ok(workspace) => fresh_mixed_c2c_workspace(self.core, workspace),
                Err(error) => error matches MixedError::Fft(fault) && some_allocation_error(
                    fault,
                    self.core.buffer_lens(),
                ),
            },
    {
        let intermediate = match self.core.allocate_registered::<R>() {
            Ok(array) => array,
            Err(error) => {
                return Err(error);
            },
        };
        match self.core.allocate_buffers::<R>() {
            Ok(buffers) => Ok(
                MixedC2cWorkspace {
                    core: self.core.id,
                    intermediate,
                    transpose: buffers.transpose,
                    embedding_line: buffers.embedding_line,
                    fft_scratch: buffers.fft_scratch,
                    line_buffer: buffers.line_buffer,
                },
            ),
            Err(error) => Err(error),
        }
    }

    /// Allocates the buffers of an out-of-place execution, under another name.
    pub fn allocate_out_of_place_workspace(&self) -> (result: Result<
        MixedC2cWorkspace<R, N, M>,
        MixedError,
    >)
        requires
            self.core.wf(),
        ensures
            match result {
                Ok(workspace) => fresh_mixed_c2c_workspace(self.core, workspace),
                Err(error) => error matches MixedError::Fft(fault) && some_allocation_error(
                    fault,
                    self.core.buffer_lens(),
                ),
            },
    {
        self.allocate_workspace()
    }

    /// Allocates an array for in-place executions. Whether there is room rests on the machine;
    /// `ManyPencilArray::from_elem_in` says what follows for each answer.
    pub fn allocate_in_place(&self) -> (result: Result<MixedC2cInPlaceArray<R, N, M>, MixedError>)
        requires
            self.core.wf(),
        ensures
            match result {
                Ok(array) => fresh_mixed_c2c_array(self.core, array),
                Err(error) => error matches MixedError::Fft(fault) && some_allocation_error(
                    fault,
                    self.core.buffer_lens(),
                ),
            },
    {
        match self.core.allocate_registered::<R>() {
            Ok(array) => Ok(
                MixedC2cInPlaceArray { core: self.core.id, array, state: C2cState::Input },
            ),
            Err(error) => Err(error),
        }
    }

    /// Allocates the buffers of an in-place execution. Whether there is room rests on the
    /// machine; `allocate_buffers_in` says what follows for each answer.
    pub fn allocate_in_place_workspace(&self) -> (result: Result<
        MixedC2cInPlaceWorkspace<R, N, M>,
        MixedError,
    >)
        ensures
            match result {
                Ok(workspace) => fresh_mixed_c2c_buffers(self.core, workspace),
                Err(error) => error matches MixedError::Fft(fault) && some_allocation_error(
                    fault,
                    self.core.buffer_lens(),
                ),
            },
    {
        self.core.allocate_buffers()
    }

    /// Prepares the unnormalized transform from `source` to `destination`.
    pub fn forward(
        &self,
        source: &PencilArray<Complex<R>, N, M>,
        destination: &PencilArray<Complex<R>, N, M>,
        workspace: &MixedC2cWorkspace<R, N, M>,
    ) -> (launch: Launch<MixedError>)
        requires
            self.core.wf(),
        ensures
            launch.describes(
                run_operation(PlanFamily::MixedC2c, Direction::Forward, false, false),
                Direction::Forward,
                mixed_c2c_error(
                    self.core,
                    Direction::Forward,
                    *source,
                    *destination,
                    *workspace,
                ),
                self.core.itinerary().list(
                    Direction::Forward,
                    Mode::OutOfPlace,
                    eager_exchanges(self.core.transitions@, Direction::Forward),
                ),
            ),
    {
        self.core.launch(Direction::Forward, false, source, destination, workspace)
    }

    /// Prepares the normalized way back from `source` to `destination`.
    pub fn inverse(
        &self,
        source: &PencilArray<Complex<R>, N, M>,
        destination: &PencilArray<Complex<R>, N, M>,
        workspace: &MixedC2cWorkspace<R, N, M>,
    ) -> (launch: Launch<MixedError>)
        requires
            self.core.wf(),
        ensures
            launch.describes(
                run_operation(PlanFamily::MixedC2c, Direction::Inverse, false, false),
                Direction::Inverse,
                mixed_c2c_error(
                    self.core,
                    Direction::Inverse,
                    *source,
                    *destination,
                    *workspace,
                ),
                self.core.itinerary().list(
                    Direction::Inverse,
                    Mode::OutOfPlace,
                    eager_exchanges(self.core.transitions@, Direction::Inverse),
                ),
            ),
    {
        self.core.launch(Direction::Inverse, false, source, destination, workspace)
    }

    /// Prepares the way back without normalization from `source` to `destination`.
    pub fn backward(
        &self,
        source: &PencilArray<Complex<R>, N, M>,
        destination: &PencilArray<Complex<R>, N, M>,
        workspace: &MixedC2cWorkspace<R, N, M>,
    ) -> (launch: Launch<MixedError>)
        requires
            self.core.wf(),
        ensures
            launch.describes(
                run_operation(PlanFamily::MixedC2c, Direction::Backward, false, false),
                Direction::Backward,
                mixed_c2c_error(
                    self.core,
                    Direction::Backward,
                    *source,
                    *destination,
                    *workspace,
                ),
                self.core.itinerary().list(
                    Direction::Backward,
                    Mode::OutOfPlace,
                    eager_exchanges(self.core.transitions@, Direction::Backward),
                ),
            ),
    {
        self.core.launch(Direction::Backward, false, source, destination, workspace)
    }

    /// Prepares the unnormalized transform in place.
    pub fn forward_in_place(
        &self,
        array: &MixedC2cInPlaceArray<R, N, M>,
        workspace: &MixedC2cInPlaceWorkspace<R, N, M>,
    ) -> (launch: Launch<MixedError>)
        requires
            self.core.wf(),
        ensures
            launch.describes(
                run_operation(PlanFamily::MixedC2c, Direction::Forward, true, false),
                Direction::Forward,
                mixed_c2c_in_place_error(self.core, Direction::Forward, *array, *workspace),
                self.core.itinerary().list(
                    Direction::Forward,
                    Mode::InPlace,
                    eager_exchanges(self.core.transitions@, Direction::Forward),
                ),
            ),
    {
        self.core.launch_in_place(Direction::Forward, false, array, workspace)
    }

    /// Prepares the normalized way back in place.
    pub fn inverse_in_place(
        &self,
        array: &MixedC2cInPlaceArray<R, N, M>,
        workspace: &MixedC2cInPlaceWorkspace<R, N, M>,
    ) -> (launch: Launch<MixedError>)
        requires
            self.core.wf(),
        ensures
            launch.describes(
                run_operation(PlanFamily::MixedC2c, Direction::Inverse, true, false),
                Direction::Inverse,
                mixed_c2c_in_place_error(self.core, Direction::Inverse, *array, *workspace),
                self.core.itinerary().list(
                    Direction::Inverse,
                    Mode::InPlace,
                    eager_exchanges(self.core.transitions@, Direction::Inverse),
                ),
            ),
    {
        self.core.launch_in_place(Direction::Inverse, false, array, workspace)
    }

    /// Prepares the way back without normalization in place.
    pub fn backward_in_place(
        &self,
        array: &MixedC2cInPlaceArray<R, N, M>,
        workspace: &MixedC2cInPlaceWorkspace<R, N, M>,
    ) -> (launch: Launch<MixedError>)
        requires
            self.core.wf(),
        ensures
            launch.describes(
                run_operation(PlanFamily::MixedC2c, Direction::Backward, true, false),
                Direction::Backward,
                mixed_c2c_in_place_error(self.core, Direction::Backward, *array, *workspace),
                self.core.itinerary().list(
                    Direction::Backward,
                    Mode::InPlace,
                    eager_exchanges(self.core.transitions@, Direction::Backward),
                ),
            ),
    {
        self.core.launch_in_place(Direction::Backward, false, array, workspace)
    }

    /// Prepares the unnormalized transform from `source` to `destination`, measured.
    pub fn forward_with_timing(
        &self,
        source: &PencilArray<Complex<R>, N, M>,
        destination: &PencilArray<Complex<R>, N, M>,
        workspace: &MixedC2cWorkspace<R, N, M>,
    ) -> (launch: Launch<MixedError>)
        requires
            self.core.wf(),
        ensures
            launch.describes(
                run_operation(PlanFamily::MixedC2c, Direction::Forward, false, true),
                Direction::Forward,
                mixed_c2c_error(
                    self.core,
                    Direction::Forward,
                    *source,
                    *destination,
                    *workspace,
                ),
                self.core.itinerary().list(
                    Direction::Forward,
                    Mode::OutOfPlace,
                    eager_exchanges(self.core.transitions@, Direction::Forward),
                ),
            ),
    {
        self.core.launch(Direction::Forward, true, source, destination, workspace)
    }

    /// Prepares the normalized way back from `source` to `destination`, measured.
    pub fn inverse_with_timing(
        &self,
        source: &PencilArray<Complex<R>, N, M>,
        destination: &PencilArray<Complex<R>, N, M>,
        workspace: &MixedC2cWorkspace<R, N, M>,
    ) -> (launch: Launch<MixedError>)
        requires
            self.core.wf(),
        ensures
            launch.describes(
                run_operation(PlanFamily::MixedC2c, Direction::Inverse, false, true),
                Direction::Inverse,
                mixed_c2c_error(
                    self.core,
                    Direction::Inverse,
                    *source,
                    *destination,
                    *workspace,
                ),
                self.core.itinerary().list(
                    Direction::Inverse,
                    Mode::OutOfPlace,
                    eager_exchanges(self.core.transitions@, Direction::Inverse),
                ),
            ),
    {
        self.core.launch(Direction::Inverse, true, source, destination, workspace)
    }

    /// Prepares the way back without normalization from `source` to `destination`, measured.
    pub fn backward_with_timing(
        &self,
        source: &PencilArray<Complex<R>, N, M>,
        destination: &PencilArray<Complex<R>, N, M>,
        workspace: &MixedC2cWorkspace<R, N, M>,
    ) -> (launch: Launch<MixedError>)
        requires
            self.core.wf(),
        ensures
            launch.describes(
                run_operation(PlanFamily::MixedC2c, Direction::Backward, false, true),
                Direction::Backward,
                mixed_c2c_error(
                    self.core,
                    Direction::Backward,
                    *source,
                    *destination,
                    *workspace,
                ),
                self.core.itinerary().list(
                    Direction::Backward,
                    Mode::OutOfPlace,
                    eager_exchanges(self.core.transitions@, Direction::Backward),
                ),
            ),
    {
        self.core.launch(Direction::Backward, true, source, destination, workspace)
    }

    /// Prepares the unnormalized transform in place, measured.
    pub fn forward_in_place_with_timing(
        &self,
        array: &MixedC2cInPlaceArray<R, N, M>,
        workspace: &MixedC2cInPlaceWorkspace<R, N, M>,
    ) -> (launch: Launch<MixedError>)
        requires
            self.core.wf(),
        ensures
            launch.describes(
                run_operation(PlanFamily::MixedC2c, Direction::Forward, true, true),
                Direction::Forward,
                mixed_c2c_in_place_error(self.core, Direction::Forward, *array, *workspace),
                self.core.itinerary().list(
                    Direction::Forward,
                    Mode::InPlace,
                    eager_exchanges(self.core.transitions@, Direction::Forward),
                ),
            ),
    {
        self.core.launch_in_place(Direction::Forward, true, array, workspace)
    }

    /// Prepares the normalized way back in place, measured.
    pub fn inverse_in_place_with_timing(
        &self,
        array: &MixedC2cInPlaceArray<R, N, M>,
        workspace: &MixedC2cInPlaceWorkspace<R, N, M>,
    ) -> (launch: Launch<MixedError>)
        requires
            self.core.wf(),
        ensures
            launch.describes(
                run_operation(PlanFamily::MixedC2c, Direction::Inverse, true, true),
                Direction::Inverse,
                mixed_c2c_in_place_error(self.core, Direction::Inverse, *array, *workspace),
                self.core.itinerary().list(
                    Direction::Inverse,
                    Mode::InPlace,
                    eager_exchanges(self.core.transitions@, Direction::Inverse),
                ),
            ),
    {
        self.core.launch_in_place(Direction::Inverse, true, array, workspace)
    }

    /// Prepares the way back without normalization in place, measured.
    pub fn backward_in_place_with_timing(
        &self,
        array: &MixedC2cInPlaceArray<R, N, M>,
        workspace: &MixedC2cInPlaceWorkspace<R, N, M>,
    ) -> (launch: Launch<MixedError>)
        requires
            self.core.wf(),
        ensures
            launch.describes(
                run_operation(PlanFamily::MixedC2c, Direction::Backward, true, true),
                Direction::Backward,
                mixed_c2c_in_place_error(self.core, Direction::Backward, *array, *workspace),
                self.core.itinerary().list(
                    Direction::Backward,
                    Mode::InPlace,
                    eager_exchanges(self.core.transitions@, Direction::Backward),
                ),
            ),
    {
        self.core.launch_in_place(Direction::Backward, true, array, workspace)
    }

    /// Prepares the unnormalized transform with each kernel inside the receive of the exchange
    /// before it, where the exchange is point to point.
    pub fn forward_with_overlap(
        &self,
        source: &PencilArray<Complex<R>, N, M>,
        destination: &PencilArray<Complex<R>, N, M>,
        workspace: &MixedC2cWorkspace<R, N, M>,
    ) -> (launch: OverlapLaunch<MixedError>)
        requires
            self.core.wf(),
        ensures
            launch.describes(
                (Operation::Overlap {
                    family: PlanFamily::MixedC2c,
                    direction: Direction::Forward,
                }),
                Direction::Forward,
                self.core.layout.transpose_method == TransposeMethod::PointToPoint,
                mixed_c2c_error(
                    self.core,
                    Direction::Forward,
                    *source,
                    *destination,
                    *workspace,
                ),
                self.core.overlaps(Direction::Forward),
                self.core.itinerary().list(
                    Direction::Forward,
                    Mode::Overlap,
                    eager_exchanges(self.core.transitions@, Direction::Forward),
                ),
            ),
    {
        self.core.launch_overlap(Direction::Forward, source, destination, workspace)
    }

    /// Prepares the normalized way back with each kernel inside the receive of the exchange
    /// before it, where the exchange is point to point.
    pub fn inverse_with_overlap(
        &self,
        source: &PencilArray<Complex<R>, N, M>,
        destination: &PencilArray<Complex<R>, N, M>,
        workspace: &MixedC2cWorkspace<R, N, M>,
    ) -> (launch: OverlapLaunch<MixedError>)
        requires
            self.core.wf(),
        ensures
            launch.describes(
                (Operation::Overlap {
                    family: PlanFamily::MixedC2c,
                    direction: Direction::Inverse,
                }),
                Direction::Inverse,
                self.core.layout.transpose_method == TransposeMethod::PointToPoint,
                mixed_c2c_error(
                    self.core,
                    Direction::Inverse,
                    *source,
                    *destination,
                    *workspace,
                ),
                self.core.overlaps(Direction::Inverse),
                self.core.itinerary().list(
                    Direction::Inverse,
                    Mode::Overlap,
                    eager_exchanges(self.core.transitions@, Direction::Inverse),
                ),
            ),
    {
        self.core.launch_overlap(Direction::Inverse, source, destination, workspace)
    }

    /// Prepares the way back without normalization with each kernel inside the receive of the
    /// exchange before it, where the exchange is point to point.
    pub fn backward_with_overlap(
        &self,
        source: &PencilArray<Complex<R>, N, M>,
        destination: &PencilArray<Complex<R>, N, M>,
        workspace: &MixedC2cWorkspace<R, N, M>,
    ) -> (launch: OverlapLaunch<MixedError>)
        requires
            self.core.wf(),
        ensures
            launch.describes(
                (Operation::Overlap {
                    family: PlanFamily::MixedC2c,
                    direction: Direction::Backward,
                }),
                Direction::Backward,
                self.core.layout.transpose_method == TransposeMethod::PointToPoint,
                mixed_c2c_error(
                    self.core,
                    Direction::Backward,
                    *source,
                    *destination,
                    *workspace,
                ),
                self.core.overlaps(Direction::Backward),
                self.core.itinerary().list(
                    Direction::Backward,
                    Mode::Overlap,
                    eager_exchanges(self.core.transitions@, Direction::Backward),
                ),
            ),
    {
        self.core.launch_overlap(Direction::Backward, source, destination, workspace)
    }
}

impl<R: FftReal, const N: usize, const M: usize> MixedC2cInPlaceArray<R, N, M> {
    /// Returns the state of the array.
    pub fn state(&self) -> (state: C2cState)
        ensures
            state == self.state,
    {
        self.state
    }

    /// Returns the elements of the active layout, unless an execution was interrupted.
    pub fn view(&self) -> (result: Result<&[Complex<R>], MixedError>)
        requires
            self.array.wf(),
        ensures
            match result {
                Ok(view) => {
                    &&& self.state != C2cState::Poisoned
                    &&& self.array.active is Some
                    &&& view@ == self.array.storage@.subrange(0, self.array.active_len())
                },
                Err(error) => {
                    &&& error == MixedError::Fft(FftError::Array(ArrayError::Poisoned))
                    &&& self.state == C2cState::Poisoned || self.array.active is None
                },
            },
    {
        if self.state == C2cState::Poisoned {
            return Err(MixedError::Fft(FftError::Array(ArrayError::Poisoned)));
        }
        match self.array.active_view() {
            Ok(view) => Ok(view),
            Err(error) => Err(MixedError::Fft(FftError::Array(error))),
        }
    }

    /// Returns the elements of the active layout for writing, unless an execution was
    /// interrupted.
    pub fn view_mut(&mut self) -> (result: Result<&mut [Complex<R>], MixedError>)
        requires
            old(self).array.wf(),
        ensures
            final(self).core == old(self).core,
            final(self).state == old(self).state,
            final(self).array.pencils == old(self).array.pencils,
            final(self).array.extra_shape == old(self).array.extra_shape,
            final(self).array.active == old(self).array.active,
            match result {
                Ok(view) => {
                    &&& old(self).state != C2cState::Poisoned
                    &&& old(self).array.active is Some
                    &&& view@ == old(self).array.storage@.subrange(0, old(self).array.active_len())
                    &&& final(self).array.storage@ == final(view)@ + old(self).array.storage@.subrange(
                        old(self).array.active_len(),
                        old(self).array.storage@.len() as int,
                    )
                },
                Err(error) => {
                    &&& error == MixedError::Fft(FftError::Array(ArrayError::Poisoned))
                    &&& old(self).state == C2cState::Poisoned || old(self).array.active is None
                    &&& final(self).array.storage == old(self).array.storage
                },
            },
    {
        if self.state == C2cState::Poisoned {
            return Err(MixedError::Fft(FftError::Array(ArrayError::Poisoned)));
        }
        match self.array.active_view_mut() {
            Ok(view) => Ok(view),
            Err(error) => Err(MixedError::Fft(FftError::Array(error))),
        }
    }
}

impl<R: FftReal, const N: usize, const M: usize> Transacted for MixedC2cInPlaceArray<R, N, M> {
    open spec fn interrupted(self) -> Self {
        MixedC2cInPlaceArray { core: self.core, array: self.array, state: C2cState::Poisoned }
    }

    open spec fn completed(self, direction: Direction) -> Self {
        MixedC2cInPlaceArray { core: self.core, array: self.array, state: c2c_state_behind(direction) }
    }

    fn interrupt(self) -> (marked: Self) {
        MixedC2cInPlaceArray { core: self.core, array: self.array, state: C2cState::Poisoned }
    }

    fn complete(self, direction: Direction) -> (done: Self) {
        let state: C2cState = match direction {
            Direction::Forward => C2cState::Output,
            _ => C2cState::Input,
        };
        MixedC2cInPlaceArray { core: self.core, array: self.array, state }
    }
}

} // verus!
