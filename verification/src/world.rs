//! What the construction of a plan asks of the processes and the process grid around it.

use vstd::prelude::*;

use crate::error::Failure;
use crate::error::FftError;
use crate::layout::Pencil;
use crate::layout::TransposeMethod;
use crate::layout::ExtraShape;
use crate::prepare::RouteCandidate;
use crate::registry::Stage;
use crate::request::PlanRequest;
use crate::run::agreed;
use crate::run::agreed_outcome;
use crate::transition::move_by;
use crate::transition::TransitionPlan;

verus! {

/// The questions that a construction asks around.
#[derive(Debug)]
pub struct World<H, D, A, P, Q, T> {
    /// Do all processes have this header?
    pub header: H,
    /// Do all processes have this descriptor, of this many words? The agreed one comes back.
    pub descriptor: D,
    /// Could all processes go on?
    pub agree: A,
    /// The canonical layout of some extents.
    pub pencil: P,
    /// The layouts that lead from a layout through all axes, with or without permuted memory.
    pub route: Q,
    /// The exchanges between stages, for the extra dimensions, by a method; those before the boundary
    /// carry real values.
    pub transitions: T,
}

/// Every question can be asked, the layouts in the answers are valid, and the exchanges in them move
/// values between processes by the method that was asked for.
pub open spec fn world_answers<H: Fn([u64; 5]) -> bool, D: Fn(Option<Vec<u64>>, Option<usize>) -> Result<Vec<u64>, FftError>, A: Fn(bool) -> bool, P: Fn([usize; N]) -> Result<Pencil<N, M>, FftError>, Q: Fn(Pencil<N, M>, [usize; N], bool) -> Result<RouteCandidate<N, M>, FftError>, T: Fn(&Vec<Stage<N, M>>, &Vec<usize>, &ExtraShape, TransposeMethod, usize) -> Result<TransitionPlan, FftError>, const N: usize, const M: usize>(
    world: World<H, D, A, P, Q, T>,
) -> bool {
    &&& forall|words: [u64; 5]| #[trigger] world.header.requires((words,))
    &&& forall|words: Option<Vec<u64>>, len: Option<usize>| #[trigger]
        world.descriptor.requires((words, len))
    &&& forall|valid: bool| #[trigger] world.agree.requires((valid,))
    &&& forall|shape: [usize; N]| #[trigger] world.pencil.requires((shape,))
    &&& forall|input: Pencil<N, M>, shape: [usize; N], permute: bool| #[trigger]
        world.route.requires((input, shape, permute))
    &&& forall|
        stages: &Vec<Stage<N, M>>,
        distributed: &Vec<usize>,
        extra_shape: &ExtraShape,
        method: TransposeMethod,
        boundary: usize,
    | #[trigger]
        world.transitions.requires((stages, distributed, extra_shape, method, boundary))
    &&& forall|shape: [usize; N], pencil: Pencil<N, M>| #[trigger]
        world.pencil.ensures((shape,), Ok(pencil)) ==> pencil.wf()
    &&& forall|input: Pencil<N, M>, shape: [usize; N], permute: bool, route: RouteCandidate<N, M>|
     #[trigger]
        world.route.ensures((input, shape, permute), Ok(route)) ==> route.wf()
    &&& forall|
        stages: &Vec<Stage<N, M>>,
        distributed: &Vec<usize>,
        extra_shape: &ExtraShape,
        method: TransposeMethod,
        boundary: usize,
        plan: TransitionPlan,
    | #[trigger]
        world.transitions.ensures((stages, distributed, extra_shape, method, boundary), Ok(plan))
            ==> plan.transitions@.len() + 1 == stages@.len() && move_by(plan.transitions@, method)
}

/// What a local outcome becomes once all processes have told whether they could go on.
pub open spec fn settled<V, E: Failure, A: Fn(bool) -> bool>(
    agree: A,
    local: Result<V, E>,
    outcome: Result<V, E>,
) -> bool {
    exists|all_valid: bool|
        {
            &&& #[trigger] agree.ensures((local is Ok,), all_valid)
            &&& outcome == agreed_outcome(local, all_valid)
        }
}

/// Asks whether all processes could go on.
pub fn settle<V, E: Failure, A: Fn(bool) -> bool>(agree: &A, local: Result<V, E>) -> (outcome:
    Result<V, E>)
    requires
        forall|valid: bool| #[trigger] agree.requires((valid,)),
    ensures
        settled(*agree, local, outcome),
        outcome is Ok ==> outcome == local,
{
    let all_valid: bool = agree(local.is_ok());
    agreed(local, all_valid)
}

/// An outcome with the errors that all plans share as one with the errors of a plan.
pub open spec fn lifted<V, E: Failure>(outcome: Result<V, FftError>) -> Result<V, E> {
    match outcome {
        Ok(value) => Ok(value),
        Err(error) => Err(E::spec_of_fft(error)),
    }
}

/// Turns the errors that all plans share into those of a plan.
pub fn lift<V, E: Failure>(outcome: Result<V, FftError>) -> (result: Result<V, E>)
    ensures
        result == lifted::<V, E>(outcome),
{
    match outcome {
        Ok(value) => Ok(value),
        Err(error) => Err(E::of_fft(error)),
    }
}

/// What agreeing on the words of a plan comes to: first the header must agree, then the
/// descriptor.
pub open spec fn words_agreed<H: Fn([u64; 5]) -> bool, D: Fn(Option<Vec<u64>>, Option<usize>) -> Result<Vec<u64>, FftError>>(
    header_question: H,
    descriptor_question: D,
    header: [u64; 5],
    descriptor: Option<Vec<u64>>,
    len: Option<usize>,
    outcome: Result<Vec<u64>, FftError>,
) -> bool {
    ||| header_question.ensures((header,), false) && outcome == Err::<Vec<u64>, FftError>(
        FftError::CollectiveDescriptorMismatch,
    )
    ||| header_question.ensures((header,), true) && descriptor_question.ensures(
        (descriptor, len),
        outcome,
    )
}

/// Agrees on the words of a plan.
pub fn agree_words<H: Fn([u64; 5]) -> bool, D: Fn(Option<Vec<u64>>, Option<usize>) -> Result<Vec<u64>, FftError>>(
    header_question: &H,
    descriptor_question: &D,
    header: [u64; 5],
    descriptor: Option<Vec<u64>>,
    len: Option<usize>,
) -> (outcome: Result<Vec<u64>, FftError>)
    requires
        forall|words: [u64; 5]| #[trigger] header_question.requires((words,)),
        forall|words: Option<Vec<u64>>, count: Option<usize>| #[trigger]
            descriptor_question.requires((words, count)),
    ensures
        words_agreed(*header_question, *descriptor_question, header, descriptor, len, outcome),
{
    if !header_question(header) {
        return Err(FftError::CollectiveDescriptorMismatch);
    }
    descriptor_question(descriptor, len)
}

/// A layout is the one that plans over some extents start from: axes lie in memory in their order, and the
/// first ones are distributed.
pub open spec fn canonical<const N: usize, const M: usize>(
    pencil: Pencil<N, M>,
    shape: [usize; N],
) -> bool {
    &&& pencil.global_shape@ == shape@
    &&& forall|p: int| 0 <= p < N ==> #[trigger] pencil.memory_order@[p] == p
    &&& forall|d: int| 0 <= d < M ==> #[trigger] pencil.decomposition@[d] == d
}

/// Tells whether a layout is the one that plans over some extents start from.
pub fn is_canonical<const N: usize, const M: usize>(pencil: &Pencil<N, M>, shape: &[usize; N]) -> (yes:
    bool)
    ensures
        yes == canonical(*pencil, *shape),
{
    let mut axis: usize = 0;
    while axis < N
        invariant
            axis <= N,
            forall|p: int| 0 <= p < axis ==> pencil.global_shape@[p] == shape@[p],
            forall|p: int| 0 <= p < axis ==> #[trigger] pencil.memory_order@[p] == p,
        decreases N - axis,
    {
        if pencil.global_shape[axis] != shape[axis] {
            assert(pencil.global_shape@[axis as int] != shape@[axis as int]);
            return false;
        }
        if pencil.memory_order[axis] != axis {
            assert(pencil.memory_order@[axis as int] != axis);
            return false;
        }
        axis += 1;
    }
    let mut dimension: usize = 0;
    while dimension < M
        invariant
            dimension <= M,
            forall|d: int| 0 <= d < dimension ==> #[trigger] pencil.decomposition@[d] == d,
        decreases M - dimension,
    {
        if pencil.decomposition[dimension] != dimension {
            assert(pencil.decomposition@[dimension as int] != dimension);
            return false;
        }
        dimension += 1;
    }
    assert(pencil.global_shape@ =~= shape@);
    true
}

/// A layout is checked before a plan starts from it.
pub open spec fn checked_input<const N: usize, const M: usize>(
    found: Result<Pencil<N, M>, FftError>,
    shape: [usize; N],
) -> Result<Pencil<N, M>, FftError> {
    match found {
        Ok(pencil) => if canonical(pencil, shape) {
            Ok(pencil)
        } else {
            Err(FftError::InputLayoutMismatch)
        },
        Err(error) => Err(error),
    }
}

/// The layout that a plan starts from: the given one, or the canonical one of the extents. One that is
/// not canonical is refused.
pub open spec fn input_given<K, P: Fn([usize; N]) -> Result<Pencil<N, M>, FftError>, const N: usize, const M: usize>(
    pencil_question: P,
    request: PlanRequest<K, N, M>,
    outcome: Result<Pencil<N, M>, FftError>,
) -> bool {
    match request.input {
        Some(input) => outcome == checked_input(Ok(input), request.global_shape),
        None => exists|found: Result<Pencil<N, M>, FftError>| #[trigger]
            pencil_question.ensures((request.global_shape,), found) && outcome == checked_input(
                found,
                request.global_shape,
            ),
    }
}

/// Finds the layout that a plan starts from, and checks it.
pub fn find_input<K, P: Fn([usize; N]) -> Result<Pencil<N, M>, FftError>, const N: usize, const M: usize>(
    pencil_question: &P,
    request: &PlanRequest<K, N, M>,
) -> (outcome: Result<Pencil<N, M>, FftError>)
    requires
        forall|shape: [usize; N]| #[trigger] pencil_question.requires((shape,)),
    ensures
        input_given(*pencil_question, *request, outcome),
{
    let found: Result<Pencil<N, M>, FftError> = match request.input {
        Some(input) => Ok(input),
        None => pencil_question(request.global_shape),
    };
    match found {
        Ok(pencil) => if is_canonical(&pencil, &request.global_shape) {
            Ok(pencil)
        } else {
            Err(FftError::InputLayoutMismatch)
        },
        Err(error) => Err(error),
    }
}

} // verus!
