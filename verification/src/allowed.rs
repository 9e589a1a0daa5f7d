//! What plans may be asked for, and what they cannot be.

use vstd::prelude::*;

use crate::error::FftError;
use crate::error::LocalC2cError;
use crate::error::LocalR2cError;
use crate::error::LocalR2rError;
use crate::error::MixedError;
use crate::error::R2cError;
use crate::error::R2rError;
use crate::graph::axis_allowed;
use crate::graph::axis_is_local;
use crate::graph::r2c_graph;
use crate::layout::AxisSelection;
use crate::layout::ExtraShape;
use crate::layout::FourierDirection;
use crate::layout::Pencil;
use crate::layout::TransposeMethod;
use crate::local::AxisR2rKind;
use crate::local::AxisTransform;
use crate::local::LocalC2cPlan;
use crate::local::LocalR2cPlan;
use crate::local::LocalR2rPlan;
use crate::local::R2rKind;
use crate::local::R2rLocal;
use crate::mixed_c2c_build::c2c_graph_given;
use crate::mixed_c2c_build::signs_given;
use crate::mixed_prepare::MixedGraph;
use crate::prepare::r2r_stage_given;
use crate::prepare::RouteCandidate;
use crate::r2c_build::is_reduction_axis;
use crate::r2c_build::r2c_refused;
use crate::r2c_build::r2c_refused_in;
use crate::r2c_build::r2c_words_given;
use crate::r2c_build::selects_none;
use crate::r2c_build::R2cFacts;
use crate::r2c_build::R2cPlanners;
use crate::r2r_build::kinds_given;
use crate::registry::Stage;
use crate::request::PlanRequest;
use crate::rooms::Rooms;
use crate::spectrum::spectrum_accepted;
use crate::transition::TransitionPlan;
use crate::world::World;

verus! {

/// One real-to-complex axis, no Fourier axis behind it, and no axis without elements.
pub open spec fn one_real_axis(shape: Seq<usize>, transforms: Seq<AxisTransform>, boundary: int) -> bool {
    &&& 0 <= boundary < transforms.len()
    &&& transforms[boundary] == AxisTransform::Rfft
    &&& forall|axis: int|
        0 <= axis < transforms.len() && axis != boundary ==> #[trigger] transforms[axis]
            != AxisTransform::Rfft
    &&& forall|axis: int|
        boundary < axis < transforms.len() ==> #[trigger] transforms[axis] != AxisTransform::Fft
    &&& forall|axis: int| 0 <= axis < transforms.len() ==> #[trigger] shape[axis] > 0
}

/// A mixed real-to-complex plan may have any transforms with one real-to-complex axis, no
/// Fourier axis behind it, and no axis without elements; nothing else is asked of them.
pub proof fn law_r2c_graph_allows(shape: Seq<usize>, transforms: Seq<AxisTransform>, boundary: int)
    ensures
        r2c_graph(shape, transforms, boundary) <==> one_real_axis(shape, transforms, boundary),
{
    if r2c_graph(shape, transforms, boundary) {
        assert(axis_allowed(transforms[boundary], boundary, boundary));
        assert forall|axis: int| 0 <= axis < transforms.len() && axis != boundary implies #[trigger] transforms[axis]
            != AxisTransform::Rfft by {
            assert(axis_allowed(transforms[axis], axis, boundary));
        }
        assert forall|axis: int| boundary < axis < transforms.len() implies #[trigger] transforms[axis]
            != AxisTransform::Fft by {
            assert(axis_allowed(transforms[axis], axis, boundary));
        }
        assert forall|axis: int| 0 <= axis < transforms.len() implies #[trigger] shape[axis] > 0 by {
            assert(axis_allowed(transforms[axis], axis, boundary));
        }
    }
    if one_real_axis(shape, transforms, boundary) {
        assert forall|axis: int| 0 <= axis < transforms.len() implies axis_allowed(
            #[trigger] transforms[axis],
            axis,
            boundary,
        ) && shape[axis] > 0 by {
            match transforms[axis] {
                AxisTransform::Unchanged => {},
                AxisTransform::Fft => {},
                AxisTransform::Rfft => {},
                AxisTransform::R2r(_) => {},
            }
        }
    }
}

/// A mixed complex plan may have any transforms but the real-to-complex one.
pub proof fn law_c2c_graph_allows<const N: usize>(graph: MixedGraph<N>, outcome: Result<(), MixedError>)
    requires
        c2c_graph_given(graph, outcome),
    ensures
        outcome is Ok <==> forall|axis: int|
            0 <= axis < N ==> #[trigger] graph.transforms@[axis] != AxisTransform::Rfft,
        outcome matches Err(error) ==> error == MixedError::InvalidGraph,
{
}

/// Signs may be asked for on Fourier axes, and on no other.
pub proof fn law_signs_allow<const N: usize>(graph: MixedGraph<N>, outcome: Result<(), MixedError>)
    requires
        signs_given(graph, outcome),
    ensures
        outcome is Ok <==> forall|axis: int|
            0 <= axis < N ==> #[trigger] graph.directions.0@[axis] == FourierDirection::Forward
                || graph.transforms@[axis] == AxisTransform::Fft,
        outcome matches Err(error) ==> error == MixedError::Fft(FftError::PreparationFailed),
{
}

/// Any kinds may stand on any axes, but the cosine transform of the first kind not on an axis
/// of one element.
pub proof fn law_kinds_allow<const N: usize, const M: usize>(
    request: PlanRequest<[Option<R2rKind>; N], N, M>,
    outcome: Result<(), R2rError>,
)
    requires
        kinds_given(request, outcome),
    ensures
        outcome is Ok <==> forall|axis: int|
            0 <= axis < N && request.global_shape@[axis] == 1 ==> #[trigger] request.transform@[axis]
                != Some(R2rKind::DctI),
        outcome matches Err(error) ==> error == R2rError::LocalR2r(LocalR2rError::InvalidLength),
{
}

/// A stage can transform an axis exactly where no process dimension divides it and this process has
/// as many elements of it as there are.
pub proof fn law_whole_axes<const N: usize, const M: usize>(pencil: Pencil<N, M>, axis: int, len: int)
    ensures
        axis_is_local(pencil, axis, len) <==> pencil.local_shape@[axis] == len && forall|d: int|
            0 <= d < M ==> #[trigger] pencil.decomposition@[d] != axis,
{
    if axis_is_local(pencil, axis, len) {
        assert forall|d: int| 0 <= d < M implies #[trigger] pencil.decomposition@[d] != axis by {
            assert(!pencil.distributes(axis));
        }
    }
}

/// A stage of a real-to-real plan whose axis is whole is prepared: without a kind it has no
/// kernel, and with one it has the kernel that the planner gives.
pub proof fn law_r2r_stage_prepared<P: Fn(AxisR2rKind, usize) -> Result<LocalR2rPlan, LocalR2rError>, const N: usize, const M: usize>(
    planner: P,
    pencil: Pencil<N, M>,
    axis: int,
    len: usize,
    kind: Option<AxisR2rKind>,
    outcome: Result<R2rLocal, R2rError>,
)
    requires
        r2r_stage_given(planner, pencil, axis, len, kind, outcome),
        pencil.local_shape@[axis] == len,
        forall|d: int| 0 <= d < M ==> #[trigger] pencil.decomposition@[d] != axis,
    ensures
        kind is None ==> outcome == Ok::<R2rLocal, R2rError>(R2rLocal::Identity),
        kind matches Some(asked) ==> match outcome {
            Ok(R2rLocal::Identity) => false,
            Ok(R2rLocal::Transform(plan)) => asked is Fftw && planner.ensures((asked, len), Ok(plan)),
            Ok(R2rLocal::Hartley(plan)) => asked is Dht && planner.ensures((asked, len), Ok(plan)),
            Err(R2rError::LocalR2r(error)) => planner.ensures((asked, len), Err(error)),
            Err(_) => false,
        },
{
    law_whole_axes(pencil, axis, len as int);
}

/// A spectrum that is not fine on some process is refused on every process, also where it is
/// fine on this one.
pub proof fn law_spectrum_refused_together<E, A: Fn(bool) -> bool>(
    agree: A,
    fine: bool,
    outcome: Result<(), E>,
    refusal: E,
)
    requires
        spectrum_accepted(agree, fine, outcome, refusal),
    ensures
        !agree.ensures((fine,), true) ==> outcome == Err::<(), E>(refusal),
        !agree.ensures((fine,), false) ==> outcome is Ok,
{
}

/// A real-to-complex plan for which no axis is selected is refused for its dimensions, where the
/// processes agree on its words.
pub proof fn law_r2c_without_axes_refused<H: Fn([u64; 5]) -> bool, D: Fn(Option<Vec<u64>>, Option<usize>) -> Result<Vec<u64>, FftError>, A: Fn(bool) -> bool, P: Fn([usize; N]) -> Result<Pencil<N, M>, FftError>, Q: Fn(Pencil<N, M>, [usize; N], bool) -> Result<RouteCandidate<N, M>, FftError>, T: Fn(&Vec<Stage<N, M>>, &Vec<usize>, &ExtraShape, TransposeMethod, usize) -> Result<TransitionPlan, FftError>, X: Fn(usize) -> Result<LocalC2cPlan, LocalC2cError>, Y: Fn(usize) -> Result<LocalR2cPlan, LocalR2cError>, E: Fn(u64, &Vec<usize>) -> Result<u64, FftError>, const N: usize, const M: usize>(
    world: World<H, D, A, P, Q, T>,
    planners: R2cPlanners<X, Y, E>,
    facts: R2cFacts<M>,
    request: PlanRequest<AxisSelection<N>, N, M>,
    error: R2cError,
)
    requires
        r2c_refused(world, planners, facts, request, error),
        forall|words: [u64; 5], same: bool| #[trigger] world.header.ensures((words,), same) ==> same,
        forall|words: Option<Vec<u64>>, len: Option<usize>, agreed: Result<Vec<u64>, FftError>| #[trigger]
            world.descriptor.ensures((words, len), agreed) ==> agreed is Ok,
        forall|axis: int| 0 <= axis < N ==> !#[trigger] request.transform.mask@[axis],
    ensures
        error == R2cError::Fft(FftError::InvalidDimensions),
{
    let rooms = choose|rooms: Rooms<N, M>| #[trigger]
        r2c_refused_in(world, planners, facts, request, rooms, error);
    assert(r2c_refused_in(world, planners, facts, request, rooms, error));
    assert forall|fault: FftError| !#[trigger] r2c_words_given(world, facts, request, rooms.words is Some, Err(fault)) by {}
    assert forall|axis: int| !#[trigger] is_reduction_axis(request.transform, axis) by {
        if 0 <= axis < N {
            assert(!request.transform.mask@[axis]);
        }
    }
}

/// The axis that a real-to-complex plan reduces is the last of those that are selected, and
/// there is one exactly where some axis is.
pub proof fn law_reduction_axis<const N: usize>(selection: AxisSelection<N>, axis: int)
    ensures
        is_reduction_axis(selection, axis) <==> {
            &&& 0 <= axis < N
            &&& selection.mask@[axis]
            &&& forall|other: int| axis < other < N ==> !#[trigger] selection.mask@[other]
        },
        selects_none(selection) <==> forall|other: int| 0 <= other < N ==> !#[trigger] selection.mask@[other],
        selection.spec_contains(axis) <==> 0 <= axis < N && selection.mask@[axis],
        selection.spec_is_all() <==> forall|other: int| 0 <= other < N ==> #[trigger] selection.mask@[other],
{
}

} // verus!
