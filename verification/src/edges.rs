//! What failures leave behind, and how they are told.

use vstd::prelude::*;

use crate::accepted::alike;
use crate::accepted::holds_one;
use crate::array::ManyPencilArray;
use crate::carrier::Load;
use crate::collections::plan_agreed;
use crate::convert::forward_refused;
use crate::convert::reverse_refused;
use crate::crew_r2c::half_split_done;
use crate::error::ArrayError;
use crate::error::BackendInitError;
use crate::error::CollectionError;
use crate::error::Failure;
use crate::error::FftError;
use crate::error::LocalR2rError;
use crate::error::MixedError;
use crate::error::OverlapError;
use crate::error::R2cError;
use crate::error::R2rError;
use crate::half_carrier::lent_carried;
use crate::half_carrier::shared_carried;
use crate::half_carrier::SharedLoad;
use crate::handoff::span_error;
use crate::handoff::Boundary;
use crate::handoff::HalfComplexStorage;
use crate::handoff::SharedStorage;
use crate::layout::Direction;
use crate::layout::Pencil;
use crate::layout::R2cState;
use crate::local::AxisR2rKind;
use crate::local::LocalR2rPlan;
use crate::local::R2rLocal;
use crate::mixed_build::peer_settled;
use crate::mixed_c2c::MixedC2cCore;
use crate::mixed_r2c::phase_error;
use crate::mixed_r2c::MixedR2cCore;
use crate::prepare::r2r_stage_given;
use crate::r2c::inactive_registered;
use crate::r2c::R2cWorkspace;
use crate::r2c::TransformPlanCore;
use crate::registry::has_layout;
use crate::scalar::Complex;
use crate::scalar::FftReal;
use crate::schedule::Slot;
use crate::shared::complex_view_error;
use crate::shared::real_view_error;
use crate::spectrum::mixed_spectrum_checked_in;
use crate::spectrum::Gauge;
use crate::transition::overlaps;
use crate::transition::Passage;
use crate::transition::Transition;
use crate::workspace::registered_error;
use crate::world::words_agreed;

verus! {

/// A part of an overlapped exchange of a real-to-complex plan that failed, or inside which a
/// kernel failed, leaves no half-written array in use: where the kernel of the boundary runs
/// inside the exchange in front of it on the way there, the complex values are given up; where
/// it runs inside the exchange behind it on the way home, the real ones are.
pub proof fn law_crossing_inside_given_up<R: FftReal, A, YR: Fn(usize, Direction, Option<bool>, Load<R, N, M>) -> (Load<R, N, M>, Result<(), OverlapError<R2cError>>), YC: Fn(usize, Direction, Option<bool>, Load<Complex<R>, N, M>) -> (Load<Complex<R>, N, M>, Result<(), OverlapError<R2cError>>), const N: usize, const M: usize>(
    boundary: usize,
    forward: bool,
    splits: (YR, YC),
    direction: Direction,
    index: usize,
    valid: Option<bool>,
    before: (A, R2cWorkspace<R, N, M>),
    after: (A, R2cWorkspace<R, N, M>),
    outcome: Result<(), OverlapError<R2cError>>,
)
    requires
        half_split_done::<R, A, YR, YC, N, M>(
            boundary,
            forward,
            splits,
            direction,
            index,
            valid,
            before,
            after,
            outcome,
        ),
        outcome is Err || valid == Some(false),
    ensures
        after.0 == before.0,
        forward && boundary > 0 && index + 1 == boundary ==> after.1.intermediate.active is None,
        !forward && boundary > 0 && index == boundary ==> (after.1.real_intermediate matches Some(array)
            ==> array.active is None),
{
}

/// A real exchange in place of a real-to-complex plan that fails on the way there gives its
/// allocation up; a complex one leaves what the exchange left.
pub proof fn law_failed_exchange_gives_up<R, E: Failure, XR: Fn(usize, Passage, Load<R, N, M>) -> (Load<R, N, M>, Result<(), FftError>), XC: Fn(usize, Passage, Load<Complex<R>, N, M>) -> (Load<Complex<R>, N, M>, Result<(), FftError>), const N: usize, const M: usize>(
    real_exchange: XR,
    exchange: XC,
    transitions: Seq<Transition>,
    direction: Direction,
    index: usize,
    at: Slot,
    before: SharedLoad<R, N, M>,
    after: SharedLoad<R, N, M>,
    error: E,
)
    requires
        lent_carried::<R, E, XR, XC, N, M>(
            real_exchange,
            exchange,
            transitions,
            direction,
            index,
            at,
            before,
            after,
            Err(error),
        ),
    ensures
        at == Slot::Real ==> after.shared.storage is None,
        at != Slot::Real ==> shared_carried::<R, E, XR, XC, N, M>(
            real_exchange,
            exchange,
            transitions,
            direction,
            index,
            at,
            before,
            after,
            Err(error),
        ),
{
}

/// The values of an array in place can be seen as what they are, and not as what they are not:
/// as real ones before a forward transform, as complex ones behind it, and not at all once an
/// execution was interrupted.
pub proof fn law_views<R: FftReal, const N: usize, const M: usize>(
    state: R2cState,
    shared: SharedStorage<R, N, M>,
)
    ensures
        state == R2cState::Poisoned ==> real_view_error(state, shared) == Some(
            FftError::Array(ArrayError::Poisoned),
        ) && complex_view_error(state, shared) == Some(FftError::Array(ArrayError::Poisoned)),
        state == R2cState::ComplexOutput ==> real_view_error(state, shared) == Some(
            FftError::InputLayoutMismatch,
        ),
        state == R2cState::RealInput ==> complex_view_error(state, shared) == Some(
            FftError::OutputLayoutMismatch,
        ),
        real_view_error(state, shared) is None <==> state == R2cState::RealInput && (
        shared.storage matches Some(HalfComplexStorage::Real(values)) && values.active is Some),
        complex_view_error(state, shared) is None <==> state == R2cState::ComplexOutput && (
        shared.storage matches Some(HalfComplexStorage::Complex(values)) && values.active is Some),
{
}

/// Lines that do not lie in one piece can be handed over only where they come in whole blocks
/// and the storage holds them all, before and behind.
pub proof fn law_span(rows: int, stride: int, real_len: int, complex_len: int, storage_len: int)
    requires
        rows >= 0,
        span_error(rows, stride, real_len, complex_len, storage_len) is None,
    ensures
        stride > 1,
        rows % stride == 0,
        rows * real_len <= storage_len,
        rows * complex_len <= storage_len,
{
    let groups = rows / stride;
    vstd::arithmetic::div_mod::lemma_fundamental_div_mod(rows, stride);
    assert(groups * real_len * stride == rows * real_len) by (nonlinear_arith)
        requires
            rows == stride * groups,
    ;
    assert(groups * complex_len * stride == rows * complex_len) by (nonlinear_arith)
        requires
            rows == stride * groups,
    ;
}

/// Handing values over in place starts for a mixed plan only where the lines come in whole
/// blocks, and blocks that do not lie in one piece fit the allocation before and behind.
pub proof fn law_mixed_phase<const N: usize, const M: usize>(
    core: MixedR2cCore<N, M>,
    direction: Direction,
    capacity: int,
)
    requires
        core.wf(),
        phase_error(core, direction, capacity) is None,
    ensures
        ({
            let boundary = core.stages@[core.boundary as int];
            let pencil = match direction {
                Direction::Forward => boundary.input,
                _ => boundary.output,
            };
            let line = match direction {
                Direction::Forward => core.plan().real_len as int,
                _ => core.plan().complex_len as int,
            };
            let rows = pencil.local_len as int / line * core.extra_shape.element_count;
            &&& pencil.local_len as int % line == 0
            &&& pencil.stride_along(boundary.axis as int) matches Some(stride)
            &&& stride > 1 ==> rows % (stride as int) == 0 && rows * core.plan().real_len <= capacity && rows
                * core.plan().complex_len <= capacity
        }),
{
    let boundary = core.stages@[core.boundary as int];
    let pencil = match direction {
        Direction::Forward => boundary.input,
        _ => boundary.output,
    };
    let line = match direction {
        Direction::Forward => core.plan().real_len as int,
        _ => core.plan().complex_len as int,
    };
    let rows = pencil.local_len as int / line * core.extra_shape.element_count;
    let stride = pencil.stride_along(boundary.axis as int)->0 as int;
    let groups = rows / stride;
    let real_len = core.plan().real_len as int;
    let complex_len = core.plan().complex_len as int;
    if stride > 1 {
        vstd::arithmetic::div_mod::lemma_fundamental_div_mod(rows, stride);
        assert(groups * real_len * stride == rows * real_len) by (nonlinear_arith)
            requires
                rows == stride * groups + rows % stride,
                rows % stride == 0,
        ;
        assert(groups * complex_len * stride == rows * complex_len) by (nonlinear_arith)
            requires
                rows == stride * groups + rows % stride,
                rows % stride == 0,
        ;
    }
}

/// A mixed complex plan allows overlap in a direction exactly where none of its exchanges in that
/// direction has all processes exchange at once.
pub proof fn law_mixed_c2c_overlap_allowed<const N: usize, const M: usize>(core: MixedC2cCore<N, M>, direction: Direction)
    ensures
        core.overlaps(direction) <==> overlaps(core.transitions@, direction),
{
}

/// What handing real values over is refused for, first things first.
pub proof fn law_handoff_refusals<R: FftReal, const N: usize, const M: usize>(
    boundary: Boundary<N, M>,
    shared: SharedStorage<R, N, M>,
)
    ensures
        boundary.stage.input.local_len as int % boundary.plan.real_len as int != 0 ==> forward_refused(
            boundary,
            shared,
        ) == Some(FftError::PreparationFailed) && reverse_refused(boundary, shared) == Some(
            FftError::PreparationFailed,
        ),
        boundary.stage.input.stride_along(boundary.stage.axis as int) is None ==> forward_refused(
            boundary,
            shared,
        ) == Some(FftError::PreparationFailed),
        boundary.stage.output.stride_along(boundary.stage.axis as int) is None ==> reverse_refused(
            boundary,
            shared,
        ) == Some(FftError::PreparationFailed),
        forward_refused(boundary, shared) != Some(FftError::PreparationFailed) ==> {
            &&& shared.complex_pencils is None || !(shared.storage matches Some(HalfComplexStorage::Real(_)))
                ==> forward_refused(boundary, shared) == Some(FftError::StorageLayoutMismatch)
            &&& shared.complex_pencils is Some ==> (shared.storage matches Some(
                HalfComplexStorage::Real(values),
            ) ==> values.active is None ==> forward_refused(boundary, shared) == Some(
                FftError::Array(ArrayError::Poisoned),
            ))
        },
        reverse_refused(boundary, shared) != Some(FftError::PreparationFailed) ==> {
            &&& shared.real_pencils is None || !(shared.storage matches Some(HalfComplexStorage::Complex(_)))
                ==> reverse_refused(boundary, shared) == Some(FftError::StorageLayoutMismatch)
        },
{
}

/// A registry that is accepted holds the required layouts and no other, each once, and its
/// storage is long enough for each of them.
pub proof fn law_registry_exact<T, const N: usize, const M: usize>(
    array: ManyPencilArray<T, N, M>,
    required: Seq<Pencil<N, M>>,
    i: int,
    j: int,
)
    requires
        registered_error(array, required) is None,
        0 <= i < array.pencils@.len(),
        0 <= j < array.pencils@.len(),
    ensures
        array.pencils@.len() == required.len(),
        holds_one(required, array.pencils@[i]),
        i != j ==> !alike(array.pencils@[i], array.pencils@[j]),
        array.active is Some,
{
    let wanted = array.pencils@[i];
    assert(has_layout(required, wanted));
    let k = choose|k: int| 0 <= k < required.len() && (#[trigger] required[k]).spec_same_layout(&wanted);
    assert(alike(required[k], wanted));
    if i < j {
        assert(!array.pencils@[i].spec_same_layout(&array.pencils@[j]));
    } else if j < i {
        assert(!array.pencils@[j].spec_same_layout(&array.pencils@[i]));
    }
}

/// The side of a real-to-complex array in place that is put aside holds every layout that its
/// stages need.
pub proof fn law_inactive_side_complete<R: FftReal, const N: usize, const M: usize>(
    core: TransformPlanCore<N, M>,
    direction: Direction,
    shared: SharedStorage<R, N, M>,
    i: int,
)
    requires
        core.wf(),
        inactive_registered(core, direction, shared),
        0 <= i < core.stages@.len(),
    ensures
        direction == Direction::Forward ==> shared.complex_pencils is Some && (i >= core.boundary ==> holds_one(
            shared.complex_pencils->0@,
            core.stages@[i].output,
        )),
        direction != Direction::Forward ==> shared.real_pencils is Some && (i <= core.boundary ==> holds_one(
            shared.real_pencils->0@,
            core.stages@[i].input,
        )),
{
    if direction == Direction::Forward {
        if i >= core.boundary {
            let held = shared.complex_pencils->0@;
            let wanted = core.stages@[i].output;
            assert(has_layout(held, wanted));
            let k = choose|k: int| 0 <= k < held.len() && (#[trigger] held[k]).spec_same_layout(&wanted);
            assert(alike(held[k], wanted));
        }
    } else if i <= core.boundary {
        let held = shared.real_pencils->0@;
        let wanted = core.stages@[i].input;
        assert(has_layout(held, wanted));
        let k = choose|k: int| 0 <= k < held.len() && (#[trigger] held[k]).spec_same_layout(&wanted);
        assert(alike(held[k], wanted));
    }
}

/// What the agreement on a plan over a collection comes to.
pub proof fn law_plan_agreement_told<E>(error: FftError)
    ensures
        plan_agreed::<E>(Ok(())) is Ok,
        plan_agreed::<E>(Err(FftError::CollectiveDescriptorMismatch)) == Err::<(), CollectionError<E>>(
            CollectionError::HeaderMismatch,
        ),
        error != FftError::CollectiveDescriptorMismatch ==> plan_agreed::<E>(Err(error)) == Err::<
            (),
            CollectionError<E>,
        >(CollectionError::Descriptor { error }),
{
}

/// A mixed real-to-complex plan whose tolerance cannot be computed refuses every spectrum with that
/// fault.
pub proof fn law_policy_fault_told<S, V, A: Fn(bool) -> bool, X: Fn(&S, S, usize, V) -> S, U: Fn(S) -> S, Y: Fn(&S, S, usize, V) -> S, Z: Fn(S) -> S, J: Fn(S, S, S) -> bool, const N: usize, const M: usize>(
    core: MixedR2cCore<N, M>,
    agree: A,
    gauge: Gauge<X, U, Y, Z, J>,
    zero: S,
    fault: FftError,
    granted: bool,
    pencil: Pencil<N, M>,
    stride: usize,
    data: &[V],
    outcome: Result<(), MixedError>,
)
    requires
        mixed_spectrum_checked_in::<S, V, A, X, U, Y, Z, J, N, M>(
            core,
            agree,
            gauge,
            zero,
            Err(fault),
            granted,
            Ok((pencil, data)),
            outcome,
        ),
        pencil.stride_along(core.stages@[core.boundary as int].axis as int) == Some(stride),
        0 < core.plan().complex_len * stride <= usize::MAX,
        pencil.local_len as int % (core.plan().complex_len * stride) == 0,
    ensures
        outcome == Err::<(), MixedError>(MixedError::Fft(fault)),
{
}

/// The words of a construction are agreed on only where the headers are; other headers are told
/// as a mismatch.
pub proof fn law_words_agreed<H: Fn([u64; 5]) -> bool, D: Fn(Option<Vec<u64>>, Option<usize>) -> Result<Vec<u64>, FftError>>(
    header_question: H,
    descriptor_question: D,
    header: [u64; 5],
    descriptor: Option<Vec<u64>>,
    len: Option<usize>,
    outcome: Result<Vec<u64>, FftError>,
)
    requires
        words_agreed(header_question, descriptor_question, header, descriptor, len, outcome),
    ensures
        outcome is Ok ==> header_question.ensures((header,), true) && descriptor_question.ensures(
            (descriptor, len),
            outcome,
        ),
        !header_question.ensures((header,), true) ==> outcome == Err::<Vec<u64>, FftError>(
            FftError::CollectiveDescriptorMismatch,
        ),
{
}

/// A question of a mixed construction that was settled holds the local answer, keeps an own
/// error, and tells the failure of another process as such.
pub proof fn law_peer_settled<V, A: Fn(bool) -> bool>(
    agree: A,
    local: Result<V, BackendInitError<MixedError>>,
    outcome: Result<V, BackendInitError<MixedError>>,
)
    requires
        peer_settled(agree, local, outcome),
    ensures
        outcome is Ok ==> outcome == local && agree.ensures((true,), true),
        local is Err ==> outcome == local,
        local is Ok && outcome is Err ==> outcome == Err::<V, BackendInitError<MixedError>>(
            BackendInitError::PeerPreflight,
        ) && agree.ensures((true,), false),
{
}

/// A stage of a real-to-real plan whose axis does not lie in one piece, or has another extent
/// than was asked for, cannot be prepared; and what the planner refuses a kernel with is told.
pub proof fn law_r2r_stage_refusals<P: Fn(AxisR2rKind, usize) -> Result<LocalR2rPlan, LocalR2rError>, const N: usize, const M: usize>(
    planner: P,
    pencil: Pencil<N, M>,
    axis: int,
    len: usize,
    kind: Option<AxisR2rKind>,
    outcome: Result<R2rLocal, R2rError>,
)
    requires
        r2r_stage_given(planner, pencil, axis, len, kind, outcome),
    ensures
        pencil.local_shape@[axis] != len || (exists|d: int| 0 <= d < M && #[trigger] pencil.decomposition@[d] == axis)
            ==> outcome == Err::<R2rLocal, R2rError>(R2rError::Fft(FftError::PreparationFailed)),
        outcome matches Err(R2rError::LocalR2r(error)) ==> kind is Some && planner.ensures(
            (kind->0, len),
            Err(error),
        ),
        outcome matches Err(R2rError::Fft(error)) ==> error == FftError::PreparationFailed,
{
    if exists|d: int| 0 <= d < M && #[trigger] pencil.decomposition@[d] == axis {
        assert(pencil.distributes(axis));
    }
}

} // verus!
