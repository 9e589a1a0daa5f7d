//! A plan that is rebuilt with other signs, beside the plan that it is rebuilt from.

use vstd::prelude::*;

use crate::array::PencilArray;
use crate::boundary::DepthTerm;
use crate::error::BackendInitError;
use crate::error::FftError;
use crate::error::LocalC2cError;
use crate::error::LocalR2cError;
use crate::error::LocalR2rError;
use crate::layout::Direction;
use crate::layout::FourierDirection;
use crate::layout::FourierDirections;
use crate::layout::Pencil;
use crate::layout::TransposeMethod;
use crate::layout::ExtraShape;
use crate::local::AxisR2rKind;
use crate::local::AxisTransform;
use crate::local::BackendChoice;
use crate::local::LocalC2cPlan;
use crate::local::LocalR2cPlan;
use crate::local::LocalR2rPlan;
use crate::mixed_build::MixedAsk;
use crate::mixed_build::MixedFacts;
use crate::mixed_c2c::MixedC2cCore;
use crate::mixed_c2c::MixedC2cWorkspace;
use crate::mixed_c2c::mixed_c2c_error;
use crate::mixed_c2c_build::mixed_c2c_built_in;
use crate::mixed_c2c_build::signs_given;
use crate::mixed_prepare::MixedGraph;
use crate::mixed_prepare::Planners;
use crate::mixed_r2c::MixedR2cCore;
use crate::mixed_r2c::MixedR2cWorkspace;
use crate::mixed_r2c::mixed_r2c_error;
use crate::mixed_r2c_build::mixed_r2c_built_in;
use crate::prepare::RouteCandidate;
use crate::registry::Stage;
use crate::request::PlanRequest;
use crate::rooms::Rooms;
use crate::scalar::Complex;
use crate::scalar::FftReal;
use crate::transition::TransitionPlan;
use crate::world::World;

verus! {

/// A mixed complex plan that is rebuilt with other signs has those signs and otherwise does what
/// the first one does; only axes with a Fourier transform may have the backward sign. It has
/// layouts and an identity of its own, so it refuses the input arrays and the workspaces of the
/// first one.
pub proof fn law_rebuilt_mixed_c2c_stands_alone<R: FftReal, H: Fn([u64; 5]) -> bool, D: Fn(Option<Vec<u64>>, Option<usize>) -> Result<Vec<u64>, FftError>, A: Fn(bool) -> bool, P: Fn([usize; N]) -> Result<Pencil<N, M>, FftError>, Q: Fn(Pencil<N, M>, [usize; N], bool) -> Result<RouteCandidate<N, M>, FftError>, T: Fn(&Vec<Stage<N, M>>, &Vec<usize>, &ExtraShape, TransposeMethod, usize) -> Result<TransitionPlan, FftError>, C: Fn(BackendChoice, usize, bool) -> Result<LocalC2cPlan, BackendInitError<LocalC2cError>>, K: Fn(BackendChoice, AxisR2rKind, usize) -> Result<LocalR2rPlan, BackendInitError<LocalR2rError>>, B: Fn(BackendChoice, usize) -> Result<LocalR2cPlan, BackendInitError<LocalR2cError>>, const N: usize, const M: usize>(
    world: World<H, D, A, P, Q, T>,
    planners: Planners<C, K, B>,
    facts: MixedFacts<M>,
    request: PlanRequest<MixedAsk<N>, N, M>,
    rooms: Rooms<N, M>,
    directions: FourierDirections<N>,
    plan: MixedC2cCore<N, M>,
    rebuilt: MixedC2cCore<N, M>,
)
    requires
        plan.wf(),
        request.starts_canonically(
            plan.spec_input().global_shape,
            plan.extra_shape,
            (MixedAsk {
                graph: MixedGraph {
                    transforms: plan.graph.transforms,
                    directions,
                    backend: plan.graph.backend,
                },
                rebuilt: true,
            }),
            plan.layout,
        ),
        rebuilt.wf(),
        rebuilt.graph == request.transform.graph,
        rebuilt.layout == request.layout,
        rebuilt.extra_shape == request.extra_shape,
        rebuilt.strict_array_identity == request.transform.spec_strict(),
        mixed_c2c_built_in(world, planners, facts, request, rooms, rebuilt),
        rebuilt.id != plan.id,
        rebuilt.spec_input().id != plan.spec_input().id,
    ensures
        ({
            &&& rebuilt.graph.directions == directions
            &&& rebuilt.graph.transforms == plan.graph.transforms
            &&& rebuilt.graph.backend == plan.graph.backend
            &&& rebuilt.layout == plan.layout
            &&& rebuilt.extra_shape.dimensions@ == plan.extra_shape.dimensions@
            &&& forall|axis: int|
                0 <= axis < N && #[trigger] directions.0@[axis] == FourierDirection::Backward
                    ==> plan.graph.transforms@[axis] == AxisTransform::Fft
            &&& forall|source: PencilArray<Complex<R>, N, M>, destination: PencilArray<Complex<R>, N, M>, workspace: MixedC2cWorkspace<R, N, M>|
                workspace.core == rebuilt.id && source.pencil == plan.spec_input() ==> #[trigger]
                mixed_c2c_error::<R, N, M>(
                    rebuilt,
                    Direction::Forward,
                    source,
                    destination,
                    workspace,
                ) == Some(FftError::InputLayoutMismatch)
            &&& forall|source: PencilArray<Complex<R>, N, M>, destination: PencilArray<Complex<R>, N, M>, workspace: MixedC2cWorkspace<R, N, M>|
                workspace.core == plan.id && source.pencil == rebuilt.spec_input() && destination.pencil
                    == rebuilt.spec_output() && source.extra_shape.dimensions@
                    == rebuilt.extra_shape.dimensions@ && destination.extra_shape.dimensions@
                    == rebuilt.extra_shape.dimensions@ ==> #[trigger] mixed_c2c_error::<R, N, M>(
                    rebuilt,
                    Direction::Forward,
                    source,
                    destination,
                    workspace,
                ) == Some(FftError::WorkspaceMismatch)
        }),
{
    assert(signs_given(request.transform.graph, Ok(())));
    assert forall|axis: int|
        0 <= axis < N && #[trigger] directions.0@[axis] == FourierDirection::Backward implies plan.graph.transforms@[axis]
        == AxisTransform::Fft by {
        assert(request.transform.graph.directions.0@[axis] == FourierDirection::Backward);
    }
}

/// A mixed real-to-complex plan that is rebuilt with other signs has those signs and otherwise does
/// what the first one does; only axes with a Fourier transform may have the backward sign. It has
/// layouts and an identity of its own, so it refuses the input arrays and the workspaces of the
/// first one.
pub proof fn law_rebuilt_mixed_r2c_stands_alone<R: FftReal, H: Fn([u64; 5]) -> bool, D: Fn(Option<Vec<u64>>, Option<usize>) -> Result<Vec<u64>, FftError>, A: Fn(bool) -> bool, P: Fn([usize; N]) -> Result<Pencil<N, M>, FftError>, Q: Fn(Pencil<N, M>, [usize; N], bool) -> Result<RouteCandidate<N, M>, FftError>, T: Fn(&Vec<Stage<N, M>>, &Vec<usize>, &ExtraShape, TransposeMethod, usize) -> Result<TransitionPlan, FftError>, C: Fn(BackendChoice, usize, bool) -> Result<LocalC2cPlan, BackendInitError<LocalC2cError>>, K: Fn(BackendChoice, AxisR2rKind, usize) -> Result<LocalR2rPlan, BackendInitError<LocalR2rError>>, B: Fn(BackendChoice, usize) -> Result<LocalR2cPlan, BackendInitError<LocalR2cError>>, E: Fn(&Vec<DepthTerm>) -> Result<u64, FftError>, const N: usize, const M: usize>(
    world: World<H, D, A, P, Q, T>,
    planners: Planners<C, K, B>,
    threshold: E,
    facts: MixedFacts<M>,
    request: PlanRequest<MixedAsk<N>, N, M>,
    rooms: Rooms<N, M>,
    directions: FourierDirections<N>,
    plan: MixedR2cCore<N, M>,
    rebuilt: MixedR2cCore<N, M>,
)
    requires
        plan.wf(),
        request.starts_canonically(
            plan.spec_input().global_shape,
            plan.extra_shape,
            (MixedAsk {
                graph: MixedGraph {
                    transforms: plan.graph.transforms,
                    directions,
                    backend: plan.graph.backend,
                },
                rebuilt: true,
            }),
            plan.layout,
        ),
        rebuilt.wf(),
        rebuilt.graph == request.transform.graph,
        rebuilt.layout == request.layout,
        rebuilt.extra_shape == request.extra_shape,
        rebuilt.strict_array_identity == request.transform.spec_strict(),
        mixed_r2c_built_in(world, planners, threshold, facts, request, rooms, rebuilt),
        rebuilt.id != plan.id,
        rebuilt.spec_input().id != plan.spec_input().id,
    ensures
        ({
            &&& rebuilt.graph.directions == directions
            &&& rebuilt.graph.transforms == plan.graph.transforms
            &&& rebuilt.graph.backend == plan.graph.backend
            &&& rebuilt.layout == plan.layout
            &&& rebuilt.extra_shape.dimensions@ == plan.extra_shape.dimensions@
            &&& forall|axis: int|
                0 <= axis < N && #[trigger] directions.0@[axis] == FourierDirection::Backward
                    ==> plan.graph.transforms@[axis] == AxisTransform::Fft
            &&& forall|source: PencilArray<R, N, M>, destination: PencilArray<Complex<R>, N, M>, workspace: MixedR2cWorkspace<R, N, M>|
                workspace.core == rebuilt.id && source.pencil == plan.spec_input() ==> #[trigger]
                mixed_r2c_error::<R, R, Complex<R>, N, M>(
                    rebuilt,
                    Direction::Forward,
                    source,
                    destination,
                    workspace,
                ) == Some(FftError::InputLayoutMismatch)
            &&& forall|source: PencilArray<R, N, M>, destination: PencilArray<Complex<R>, N, M>, workspace: MixedR2cWorkspace<R, N, M>|
                workspace.core == plan.id && source.pencil == rebuilt.spec_input() && destination.pencil
                    == rebuilt.spec_output() && source.extra_shape.dimensions@
                    == rebuilt.extra_shape.dimensions@ && destination.extra_shape.dimensions@
                    == rebuilt.extra_shape.dimensions@ ==> #[trigger] mixed_r2c_error::<R, R, Complex<R>, N, M>(
                    rebuilt,
                    Direction::Forward,
                    source,
                    destination,
                    workspace,
                ) == Some(FftError::WorkspaceMismatch)
        }),
{
    assert(signs_given(request.transform.graph, Ok(())));
    assert forall|axis: int|
        0 <= axis < N && #[trigger] directions.0@[axis] == FourierDirection::Backward implies plan.graph.transforms@[axis]
        == AxisTransform::Fft by {
        assert(request.transform.graph.directions.0@[axis] == FourierDirection::Backward);
    }
}

} // verus!
