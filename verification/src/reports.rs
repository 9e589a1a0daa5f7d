//! What is told of measured executions, of bytes and words, and of rooms for buffers.

use vstd::prelude::*;

use crate::chain::law_execution_in_place_does_every_step;
use crate::clock::blank;
use crate::clock::executed_timed_in_place;
use crate::clock::handed_out;
use crate::clock::measured;
use crate::clock::without_report;
use crate::clock::ClockedInPlace;
use crate::crew::Crew;
use crate::crew::InTurn;
use crate::error::Failure;
use crate::error::FftError;
use crate::error::R2rError;
use crate::handoff::HalfComplexStorage;
use crate::handoff::SharedStorage;
use crate::layout::DistributedLayout;
use crate::layout::FourierDirections;
use crate::layout::R2rState;
use crate::local::AxisTransform;
use crate::local::BackendChoice;
use crate::measures::law_time_recorded;
use crate::mixed_build::full_len;
use crate::mixed_c2c::MixedC2cCore;
use crate::mixed_c2c::MixedC2cRooms;
use crate::mixed_r2c::MixedR2cCore;
use crate::mixed_r2c_alloc::MixedR2cRooms;
use crate::r2c::TransformPlanCore;
use crate::r2c_alloc::R2cRooms;
use crate::r2r::transaction_done;
use crate::r2r::R2rCore;
use crate::r2r::R2rInPlaceArray;
use crate::r2r::R2rRooms;
use crate::run::executed_in_place;
use crate::run::Launch;
use crate::run::Transacted;
use crate::scalar::FftReal;
use crate::scalar::R2rScalar;
use crate::schedule::Step;
use crate::shared::counted_bytes;
use crate::shared::counts_bytes;
use crate::shared::stored;
use crate::tally::kernel_calls;
use crate::timing::StageTiming;
use crate::timing::TransformTiming;
use crate::words::descriptor_words;
use crate::words::mixed_descriptor_words;
use crate::words::sign_words;
use crate::words::spec_descriptor_len;
use crate::words::MixedDescriptorFacts;

verus! {

proof fn lemma_tally_in_place<X, W, E: Failure, C: Crew<(X, W), E>, K: Fn() -> u64, const N: usize>(
    clocked: ClockedInPlace<C, K>,
    steps: Seq<Step>,
    states: Seq<(X, (W, TransformTiming<N>))>,
    stage: int,
    count: int,
)
    requires
        0 <= stage < N,
        0 <= count <= steps.len(),
        steps.len() < u64::MAX,
        states.len() == steps.len() + 1,
        forall|i: int|
            0 <= i < steps.len() ==> clocked.does(#[trigger] steps[i], states[i], states[i + 1], Ok(())),
        blank(states[0].1.1),
    ensures
        states[count].1.1.stages@[stage].fft_calls == kernel_calls(steps, stage, count),
        0 <= kernel_calls(steps, stage, count) <= count,
    decreases count,
{
    if count > 0 {
        lemma_tally_in_place::<X, W, E, C, K, N>(clocked, steps, states, stage, count - 1);
        let step = steps[count - 1];
        assert(clocked.does(step, states[count - 1], states[count], Ok(())));
        let before = states[count - 1].1.1;
        let after = states[count].1.1;
        let spent = choose|spent: u64| #[trigger]
            measured(*clocked.now, spent) && after.stages@ == before.recorded(step, spent);
        law_time_recorded(before, step, spent, stage);
    } else {
        assert(states[0].1.1.stages@[stage] == StageTiming::nothing());
    }
}

/// A measured execution in place does what the execution does that is not measured; and where it
/// succeeds, its report tells for each stage as many calls of kernels as there were.
pub proof fn law_timed_execution_in_place<X: Transacted, W, E: Failure, Q: Fn(u64, &Vec<u64>) -> Result<(), FftError>, C: Crew<(X, W), E>, A: Fn(bool) -> bool, K: Fn() -> u64, const N: usize>(
    launch: Launch<E>,
    words: Vec<u64>,
    same_plan: Q,
    agree: A,
    crew: C,
    now: K,
    before: (X, W),
    after: (X, W),
    outcome: Result<TransformTiming<N>, E>,
    stage: int,
)
    requires
        executed_timed_in_place(launch, words, same_plan, agree, crew, now, before, after, outcome),
        launch.steps@.len() < u64::MAX,
        0 <= stage < N,
    ensures
        executed_in_place(
            launch,
            words,
            same_plan,
            agree,
            InTurn { crew: &crew },
            before,
            after,
            match outcome {
                Ok(_) => Ok::<(), E>(()),
                Err(error) => Err(error),
            },
        ),
        outcome matches Ok(report) ==> {
            &&& report.stages@[stage].fft_calls == kernel_calls(
                launch.steps@,
                stage,
                launch.steps@.len() as int,
            )
            &&& measured(now, report.total)
        },
{
    if let Ok(report) = outcome {
        let (unmeasured, entered) = choose|unmeasured: TransformTiming<N>, entered: TransformTiming<N>|
            {
                &&& #[trigger] blank(unmeasured)
                &&& #[trigger] handed_out(now, entered, outcome)
                &&& executed_in_place(
                    launch,
                    words,
                    same_plan,
                    agree,
                    InTurn { crew: &ClockedInPlace { crew: &crew, now: &now } },
                    (before.0, (before.1, unmeasured)),
                    (after.0, (after.1, entered)),
                    without_report(outcome),
                )
            };
        let clocked = ClockedInPlace { crew: &crew, now: &now };
        let states = law_execution_in_place_does_every_step(
            launch,
            words,
            same_plan,
            agree,
            clocked,
            (before.0, (before.1, unmeasured)),
            (after.0, (after.1, entered)),
        );
        lemma_tally_in_place::<X, W, E, C, K, N>(
            clocked,
            launch.steps@,
            states,
            stage,
            launch.steps@.len() as int,
        );
    }
}

/// A choice of an implementation tells the native one from the portable one, whatever its options.
pub proof fn law_backend_told(choice: BackendChoice)
    ensures
        choice is RustFft <==> choice.spec_kind() is RustFft,
        choice is Fftw <==> choice.spec_kind() is Fftw,
{
}

/// While an in-place execution is under way its array counts as poisoned. One that succeeded
/// leaves it in the state that was aimed at, with the values that the execution left; one that
/// failed leaves it as it was left.
pub proof fn law_transaction<T: R2rScalar, F: FnOnce(R2rInPlaceArray<T, N, M>) -> (R2rInPlaceArray<T, N, M>, Result<(), R2rError>), const N: usize, const M: usize>(
    body: F,
    before: R2rInPlaceArray<T, N, M>,
    target: R2rState,
    after: R2rInPlaceArray<T, N, M>,
    outcome: Result<(), R2rError>,
) -> (states: (R2rInPlaceArray<T, N, M>, R2rInPlaceArray<T, N, M>))
    requires
        transaction_done(body, before, target, after, outcome),
    ensures
        body.ensures((states.0,), (states.1, outcome)),
        states.0.array == before.array,
        states.0.core == before.core,
        states.0.state is Poisoned,
        after.array == states.1.array,
        after.core == states.1.core,
        outcome is Ok ==> after.state == target,
        outcome is Err ==> after.state == states.1.state,
{
    let left = choose|left: R2rInPlaceArray<T, N, M>|
        {
            &&& #[trigger] body.ensures((before.poisoned(),), (left, outcome))
            &&& after.core == left.core
            &&& after.array == left.array
            &&& after.state == if outcome is Ok {
                target
            } else {
                left.state
            }
        };
    (before.poisoned(), left)
}

/// The bytes of an allocation are those of all its elements, and are told as long as they can be
/// counted.
pub proof fn law_bytes_counted(size: usize, capacity: usize)
    ensures
        counted_bytes(size as int, capacity as int) is None <==> size * capacity > usize::MAX,
        counted_bytes(size as int, capacity as int) matches Some(bytes) ==> bytes == size * capacity,
{
    assert(size * capacity == capacity * size) by (nonlinear_arith);
    assert(0 <= capacity * size) by (nonlinear_arith)
        requires
            0 <= capacity,
            0 <= size,
    ;
}

/// The shared allocation tells its bytes while it is there: room at least for what it holds, a real
/// scalar for each real value and two for each complex one.
pub proof fn law_shared_bytes<R: FftReal, const N: usize, const M: usize>(
    shared: SharedStorage<R, N, M>,
    bytes: Option<usize>,
)
    requires
        counts_bytes(shared, bytes),
    ensures
        bytes is Some <==> shared.storage is Some,
        shared.storage matches Some(HalfComplexStorage::Real(values)) ==> bytes->0 >= values.storage@.len()
            * R::bytes(),
        shared.storage matches Some(HalfComplexStorage::PoisonedReal(values)) ==> bytes->0 >= values@.len()
            * R::bytes(),
        shared.storage matches Some(HalfComplexStorage::Complex(values)) ==> bytes->0
            >= values.storage@.len() * (2 * R::bytes()),
        shared.storage matches Some(HalfComplexStorage::PoisonedComplex(values)) ==> bytes->0
            >= values@.len() * (2 * R::bytes()),
{
    if let Some(storage) = shared.storage {
        let size = stored(storage).0;
        let len = stored(storage).1;
        assert(size * len == len * size) by (nonlinear_arith);
    }
}

/// The length that the ranks compare is the number of words of the descriptor; it is missing
/// only where so many words cannot be counted.
pub proof fn law_descriptor_length<const N: usize, const M: usize>(
    global_shape: [usize; N],
    process_grid: [usize; M],
    extra: Seq<usize>,
    value_kind: u64,
    scalar_bytes: usize,
    axis_words: Seq<u64>,
    layout: DistributedLayout,
)
    requires
        axis_words.len() == N,
    ensures
        ({
            let words = descriptor_words(
                global_shape@,
                process_grid@,
                extra,
                value_kind,
                scalar_bytes,
                axis_words,
                layout,
            );
            match spec_descriptor_len(N as int, M as int, extra.len() as int) {
                Some(len) => len == words.len(),
                None => words.len() > usize::MAX,
            }
        }),
{
}

/// The length that the ranks compare is the number of words of the descriptor of a mixed plan, with
/// those of its backend and of the signs; it is missing only where so many words cannot be counted.
pub proof fn law_mixed_descriptor_length<const N: usize, const M: usize>(
    input_shape: [usize; N],
    output_shape: [usize; N],
    process_grid: [usize; M],
    extra: Seq<usize>,
    facts: MixedDescriptorFacts,
    transforms: [AxisTransform; N],
    backend: [u64; 7],
    directions: FourierDirections<N>,
)
    ensures
        ({
            let words = mixed_descriptor_words(
                input_shape@,
                output_shape@,
                process_grid@,
                extra,
                facts,
                transforms,
            ) + backend@ + sign_words(directions);
            match full_len(N as int, M as int, extra.len() as int) {
                Some(len) => len == words.len(),
                None => words.len() > usize::MAX,
            }
        }),
{
}

/// The buffers of a real-to-real plan can be allocated exactly if there is room for each of
/// them; what is told otherwise is the length of the first one that there is no room for.
pub proof fn law_r2r_rooms<T: R2rScalar, const N: usize, const M: usize>(core: R2rCore<N, M>, rooms: R2rRooms<T>) -> (fault: Option<FftError>)
    ensures
        fault == core.buffers_fault(rooms),
        fault is None <==> rooms.send is Some && rooms.receive is Some && rooms.embedding is Some && rooms.scratch is Some && rooms.line is Some,
        rooms.send is None ==> fault == Some(FftError::AllocationFailed { required: core.lens.send }),
        rooms.send is Some && rooms.receive is None ==> fault == Some(FftError::AllocationFailed { required: core.lens.receive }),
        rooms.send is Some && rooms.receive is Some && rooms.embedding is None ==> fault == Some(FftError::AllocationFailed { required: core.embedding_len }),
        rooms.send is Some && rooms.receive is Some && rooms.embedding is Some && rooms.scratch is None ==> fault == Some(FftError::AllocationFailed { required: core.lens.fft_scratch }),
        rooms.send is Some && rooms.receive is Some && rooms.embedding is Some && rooms.scratch is Some && rooms.line is None ==> fault == Some(FftError::AllocationFailed { required: core.strided_line_len }),
{
    core.buffers_fault(rooms)
}

/// The buffers of a mixed complex plan can be allocated exactly if there is room for each of
/// them; what is told otherwise is the length of the first one that there is no room for.
pub proof fn law_mixed_c2c_rooms<R: FftReal, const N: usize, const M: usize>(core: MixedC2cCore<N, M>, rooms: MixedC2cRooms<R>) -> (fault: Option<FftError>)
    ensures
        fault == core.buffers_fault(rooms),
        fault is None <==> rooms.send is Some && rooms.receive is Some && rooms.embedding is Some && rooms.scratch is Some && rooms.line is Some,
        rooms.send is None ==> fault == Some(FftError::AllocationFailed { required: core.lens.send }),
        rooms.send is Some && rooms.receive is None ==> fault == Some(FftError::AllocationFailed { required: core.lens.receive }),
        rooms.send is Some && rooms.receive is Some && rooms.embedding is None ==> fault == Some(FftError::AllocationFailed { required: core.embedding_len }),
        rooms.send is Some && rooms.receive is Some && rooms.embedding is Some && rooms.scratch is None ==> fault == Some(FftError::AllocationFailed { required: core.lens.fft_scratch }),
        rooms.send is Some && rooms.receive is Some && rooms.embedding is Some && rooms.scratch is Some && rooms.line is None ==> fault == Some(FftError::AllocationFailed { required: core.strided_line_len }),
{
    core.buffers_fault(rooms)
}

/// The buffers of a mixed real-to-complex plan can be allocated exactly if there is room for
/// each of them; what is told otherwise is the length of the first one that there is no room
/// for.
pub proof fn law_mixed_r2c_rooms<R: FftReal, const N: usize, const M: usize>(core: MixedR2cCore<N, M>, rooms: MixedR2cRooms<R>) -> (fault: Option<FftError>)
    ensures
        fault == core.buffers_fault(rooms),
        fault is None <==> (core.boundary > 0 ==> rooms.real_send is Some) && (core.boundary > 0 ==> rooms.real_receive is Some) && rooms.send is Some && rooms.receive is Some && rooms.embedding is Some && rooms.scratch is Some && rooms.real_source is Some && rooms.real_line is Some && rooms.complex_source is Some && rooms.complex_line is Some && rooms.real_strided is Some && rooms.complex_strided is Some,
        core.boundary > 0 && rooms.real_send is None ==> fault == Some(FftError::AllocationFailed { required: core.real_lens.send }),
        (core.boundary > 0 ==> rooms.real_send is Some) && core.boundary > 0 && rooms.real_receive is None ==> fault == Some(FftError::AllocationFailed { required: core.real_lens.receive }),
        (core.boundary > 0 ==> rooms.real_send is Some) && (core.boundary > 0 ==> rooms.real_receive is Some) && rooms.send is None ==> fault == Some(FftError::AllocationFailed { required: core.lens.send }),
        (core.boundary > 0 ==> rooms.real_send is Some) && (core.boundary > 0 ==> rooms.real_receive is Some) && rooms.send is Some && rooms.receive is None ==> fault == Some(FftError::AllocationFailed { required: core.lens.receive }),
        (core.boundary > 0 ==> rooms.real_send is Some) && (core.boundary > 0 ==> rooms.real_receive is Some) && rooms.send is Some && rooms.receive is Some && rooms.embedding is None ==> fault == Some(FftError::AllocationFailed { required: core.embedding_len }),
        (core.boundary > 0 ==> rooms.real_send is Some) && (core.boundary > 0 ==> rooms.real_receive is Some) && rooms.send is Some && rooms.receive is Some && rooms.embedding is Some && rooms.scratch is None ==> fault == Some(FftError::AllocationFailed { required: core.lens.fft_scratch }),
        (core.boundary > 0 ==> rooms.real_send is Some) && (core.boundary > 0 ==> rooms.real_receive is Some) && rooms.send is Some && rooms.receive is Some && rooms.embedding is Some && rooms.scratch is Some && rooms.real_source is None ==> fault == Some(FftError::AllocationFailed { required: core.plan().real_len }),
        (core.boundary > 0 ==> rooms.real_send is Some) && (core.boundary > 0 ==> rooms.real_receive is Some) && rooms.send is Some && rooms.receive is Some && rooms.embedding is Some && rooms.scratch is Some && rooms.real_source is Some && rooms.real_line is None ==> fault == Some(FftError::AllocationFailed { required: if core.real_line_len >= core.plan().real_len { core.real_line_len } else { core.plan().real_len } }),
        (core.boundary > 0 ==> rooms.real_send is Some) && (core.boundary > 0 ==> rooms.real_receive is Some) && rooms.send is Some && rooms.receive is Some && rooms.embedding is Some && rooms.scratch is Some && rooms.real_source is Some && rooms.real_line is Some && rooms.complex_source is None ==> fault == Some(FftError::AllocationFailed { required: core.plan().complex_len }),
        (core.boundary > 0 ==> rooms.real_send is Some) && (core.boundary > 0 ==> rooms.real_receive is Some) && rooms.send is Some && rooms.receive is Some && rooms.embedding is Some && rooms.scratch is Some && rooms.real_source is Some && rooms.real_line is Some && rooms.complex_source is Some && rooms.complex_line is None ==> fault == Some(FftError::AllocationFailed { required: if core.complex_line_len >= core.plan().complex_len { core.complex_line_len } else { core.plan().complex_len } }),
        (core.boundary > 0 ==> rooms.real_send is Some) && (core.boundary > 0 ==> rooms.real_receive is Some) && rooms.send is Some && rooms.receive is Some && rooms.embedding is Some && rooms.scratch is Some && rooms.real_source is Some && rooms.real_line is Some && rooms.complex_source is Some && rooms.complex_line is Some && rooms.real_strided is None ==> fault == Some(FftError::AllocationFailed { required: core.real_line_len }),
        (core.boundary > 0 ==> rooms.real_send is Some) && (core.boundary > 0 ==> rooms.real_receive is Some) && rooms.send is Some && rooms.receive is Some && rooms.embedding is Some && rooms.scratch is Some && rooms.real_source is Some && rooms.real_line is Some && rooms.complex_source is Some && rooms.complex_line is Some && rooms.real_strided is Some && rooms.complex_strided is None ==> fault == Some(FftError::AllocationFailed { required: core.complex_line_len }),
{
    core.buffers_fault(rooms)
}

/// The buffers of a real-to-complex plan can be allocated exactly if there is room for each of
/// them; what is told otherwise is the length of the first one that there is no room for, where
/// the lines of the boundary lie in memory at all.
pub proof fn law_r2c_rooms<R: FftReal, const N: usize, const M: usize>(core: TransformPlanCore<N, M>, rooms: R2cRooms<R>) -> (fault: Option<FftError>)
    ensures
        fault == core.buffers_fault(rooms),
        fault is None <==> core.boundary_stride() is Some && (core.boundary > 0 ==> rooms.real_send is Some) && (core.boundary > 0 ==> rooms.real_receive is Some) && rooms.send is Some && rooms.receive is Some && rooms.scratch is Some && (core.boundary_stride()->0 > 1 ==> rooms.real_source is Some) && rooms.real_line is Some && rooms.complex_source is Some && rooms.complex_line is Some && rooms.strided_line is Some,
        core.boundary > 0 && rooms.real_send is None ==> fault == Some(FftError::AllocationFailed { required: core.real_lens.send }),
        (core.boundary > 0 ==> rooms.real_send is Some) && core.boundary > 0 && rooms.real_receive is None ==> fault == Some(FftError::AllocationFailed { required: core.real_lens.receive }),
        (core.boundary > 0 ==> rooms.real_send is Some) && (core.boundary > 0 ==> rooms.real_receive is Some) && core.boundary_stride() is Some && rooms.send is None ==> fault == Some(FftError::AllocationFailed { required: core.lens.send }),
        (core.boundary > 0 ==> rooms.real_send is Some) && (core.boundary > 0 ==> rooms.real_receive is Some) && rooms.send is Some && core.boundary_stride() is Some && rooms.receive is None ==> fault == Some(FftError::AllocationFailed { required: core.lens.receive }),
        (core.boundary > 0 ==> rooms.real_send is Some) && (core.boundary > 0 ==> rooms.real_receive is Some) && rooms.send is Some && rooms.receive is Some && core.boundary_stride() is Some && rooms.scratch is None ==> fault == Some(FftError::AllocationFailed { required: core.lens.fft_scratch }),
        (core.boundary > 0 ==> rooms.real_send is Some) && (core.boundary > 0 ==> rooms.real_receive is Some) && rooms.send is Some && rooms.receive is Some && rooms.scratch is Some && core.boundary_stride() is Some && core.boundary_stride()->0 > 1 && rooms.real_source is None ==> fault == Some(FftError::AllocationFailed { required: core.plan().real_len }),
        (core.boundary > 0 ==> rooms.real_send is Some) && (core.boundary > 0 ==> rooms.real_receive is Some) && rooms.send is Some && rooms.receive is Some && rooms.scratch is Some && (core.boundary_stride()->0 > 1 ==> rooms.real_source is Some) && core.boundary_stride() is Some && rooms.real_line is None ==> fault == Some(FftError::AllocationFailed { required: core.plan().real_len }),
        (core.boundary > 0 ==> rooms.real_send is Some) && (core.boundary > 0 ==> rooms.real_receive is Some) && rooms.send is Some && rooms.receive is Some && rooms.scratch is Some && (core.boundary_stride()->0 > 1 ==> rooms.real_source is Some) && rooms.real_line is Some && core.boundary_stride() is Some && rooms.complex_source is None ==> fault == Some(FftError::AllocationFailed { required: core.plan().complex_len }),
        (core.boundary > 0 ==> rooms.real_send is Some) && (core.boundary > 0 ==> rooms.real_receive is Some) && rooms.send is Some && rooms.receive is Some && rooms.scratch is Some && (core.boundary_stride()->0 > 1 ==> rooms.real_source is Some) && rooms.real_line is Some && rooms.complex_source is Some && core.boundary_stride() is Some && rooms.complex_line is None ==> fault == Some(FftError::AllocationFailed { required: core.plan().complex_len }),
        (core.boundary > 0 ==> rooms.real_send is Some) && (core.boundary > 0 ==> rooms.real_receive is Some) && rooms.send is Some && rooms.receive is Some && rooms.scratch is Some && (core.boundary_stride()->0 > 1 ==> rooms.real_source is Some) && rooms.real_line is Some && rooms.complex_source is Some && rooms.complex_line is Some && core.boundary_stride() is Some && rooms.strided_line is None ==> fault == Some(FftError::AllocationFailed { required: core.strided_line_len }),
{
    core.buffers_fault(rooms)
}

} // verus!
