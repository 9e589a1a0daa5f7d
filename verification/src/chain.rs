//! An execution does every step of its plan in order, or does not start.

use vstd::prelude::*;

use crate::crew::all_done;
use crate::crew::Crew;
use crate::crew::InTurn;
use crate::crew::Pieces;
use crate::error::Failure;
use crate::error::FftError;
use crate::error::FftOverlapError;
use crate::layout::C2cState;
use crate::layout::Direction;
use crate::layout::R2cState;
use crate::layout::R2rState;
use crate::mixed_c2c::run_operation;
use crate::mixed_c2c::MixedC2cInPlaceArray;
use crate::mixed_r2c::MixedR2cInPlaceArray;
use crate::r2c::R2cInPlaceArray;
use crate::r2r::R2rInPlaceArray;
use crate::run::agreed_outcome;
use crate::run::executed;
use crate::run::executed_in_place;
use crate::run::executed_overlapped;
use crate::run::steps_run;
use crate::run::Launch;
use crate::run::OverlapLaunch;
use crate::run::Transacted;
use crate::scalar::FftReal;
use crate::scalar::R2rScalar;
use crate::schedule::Step;
use crate::transition::eager_exchanges;
use crate::transition::overlaps;
use crate::transition::ExchangeKind;
use crate::transition::Transition;
use crate::walk::lemma_pieces_all_done;
use crate::words::law_operation_words_unique;
use crate::words::operation_word_of;
use crate::words::PlanFamily;
use crate::world::settled;

verus! {

/// The steps were done one after the other, each from where the one before it left off.
pub open spec fn chained<D, E, C: Crew<D, E>>(crew: C, steps: Seq<Step>, states: Seq<D>) -> bool {
    &&& states.len() == steps.len() + 1
    &&& forall|i: int|
        0 <= i < steps.len() ==> crew.does(#[trigger] steps[i], states[i], states[i + 1], Ok(()))
}

/// Steps that were all done form a chain.
pub proof fn lemma_chained<D, E, C: Crew<D, E>>(
    crew: C,
    steps: Seq<Step>,
    before: D,
    after: D,
) -> (states: Seq<D>)
    requires
        all_done::<D, E, C>(crew, steps, before, after),
    ensures
        chained::<D, E, C>(crew, steps, states),
        states[0] == before,
        states[steps.len() as int] == after,
    decreases steps.len(),
{
    if steps.len() == 0 {
        seq![before]
    } else {
        let between = choose|between: D|
            all_done::<D, E, C>(crew, steps.drop_last(), before, between) && #[trigger] crew.does(
                steps.last(),
                between,
                after,
                Ok(()),
            );
        let front = lemma_chained::<D, E, C>(crew, steps.drop_last(), before, between);
        let states = front.push(after);
        assert forall|i: int| 0 <= i < steps.len() implies crew.does(
            #[trigger] steps[i],
            states[i],
            states[i + 1],
            Ok(()),
        ) by {
            if i < steps.len() - 1 {
                assert(crew.does(steps.drop_last()[i], front[i], front[i + 1], Ok(())));
            }
        }
        states
    }
}

/// An execution that succeeds did every step of its list, in order, from the state it was given
/// to the one it leaves; and this process found nothing wrong with its arguments.
pub proof fn law_execution_does_every_step<D, E: Failure, Q: Fn(u64, &Vec<u64>) -> Result<(), FftError>, C: Crew<D, E>, A: Fn(bool) -> bool>(
    launch: Launch<E>,
    words: Vec<u64>,
    same_plan: Q,
    agree: A,
    crew: C,
    before: D,
    after: D,
) -> (states: Seq<D>)
    requires
        executed(launch, words, same_plan, agree, InTurn { crew: &crew }, before, after, Ok(())),
    ensures
        launch.preflight is Ok,
        states.len() == launch.steps@.len() + 1,
        states[0] == before,
        states[launch.steps@.len() as int] == after,
        forall|i: int|
            0 <= i < launch.steps@.len() ==> crew.does(
                #[trigger] launch.steps@[i],
                states[i],
                states[i + 1],
                Ok(()),
            ),
{
    let steps = launch.steps@;
    lemma_pieces_all_done::<D, E, C, A>(crew, agree, steps, steps.len() as int, before, after);
    assert(steps.take(steps.len() as int) =~= steps);
    lemma_chained::<D, E, C>(crew, steps, before, after)
}

/// An execution in place that succeeds did every step of its list, in order, on the array while it
/// counted as interrupted, and then marks it as completed in its direction.
pub proof fn law_execution_in_place_does_every_step<X: Transacted, W, E: Failure, Q: Fn(u64, &Vec<u64>) -> Result<(), FftError>, C: Crew<(X, W), E>, A: Fn(bool) -> bool>(
    launch: Launch<E>,
    words: Vec<u64>,
    same_plan: Q,
    agree: A,
    crew: C,
    before: (X, W),
    after: (X, W),
) -> (states: Seq<(X, W)>)
    requires
        executed_in_place(launch, words, same_plan, agree, InTurn { crew: &crew }, before, after, Ok(())),
    ensures
        launch.preflight is Ok,
        states.len() == launch.steps@.len() + 1,
        states[0] == (before.0.interrupted(), before.1),
        after == (
            states[launch.steps@.len() as int].0.completed(launch.direction),
            states[launch.steps@.len() as int].1,
        ),
        forall|i: int|
            0 <= i < launch.steps@.len() ==> crew.does(
                #[trigger] launch.steps@[i],
                states[i],
                states[i + 1],
                Ok(()),
            ),
{
    let steps = launch.steps@;
    let start = (before.0.interrupted(), before.1);
    let left = choose|left: (X, W)| #[trigger]
        steps_run(InTurn { crew: &crew }, agree, steps, start, left, Ok::<(), E>(())) && after == (
            left.0.completed(launch.direction),
            left.1,
        );
    assert(steps_run(InTurn { crew: &crew }, agree, steps, start, left, Ok::<(), E>(())));
    lemma_pieces_all_done::<(X, W), E, C, A>(crew, agree, steps, steps.len() as int, start, left);
    assert(steps.take(steps.len() as int) =~= steps);
    lemma_chained::<(X, W), E, C>(crew, steps, start, left)
}

/// An execution whose arguments this process found wrong, or whose plan the processes do not
/// share, or that another process cannot start, fails and changes nothing.
pub proof fn law_unready_execution_keeps_all<D, E: Failure, Q: Fn(u64, &Vec<u64>) -> Result<(), FftError>, P: Pieces<D, E>, A: Fn(bool) -> bool>(
    launch: Launch<E>,
    words: Vec<u64>,
    same_plan: Q,
    agree: A,
    perform: P,
    before: D,
    after: D,
    outcome: Result<(), E>,
)
    requires
        executed(launch, words, same_plan, agree, perform, before, after, outcome),
        launch.preflight is Err || (forall|found: Result<(), FftError>| #[trigger]
            same_plan.ensures((launch.operation, &words), found) ==> found is Err) || (forall|all: bool| #[trigger]
            agree.ensures((true,), all) ==> !all),
    ensures
        outcome is Err,
        after == before,
{
}

/// An execution in place that cannot start fails and changes nothing; the array does not count as
/// interrupted.
pub proof fn law_unready_execution_in_place_keeps_all<X: Transacted, W, E: Failure, Q: Fn(u64, &Vec<u64>) -> Result<(), FftError>, P: Pieces<(X, W), E>, A: Fn(bool) -> bool>(
    launch: Launch<E>,
    words: Vec<u64>,
    same_plan: Q,
    agree: A,
    perform: P,
    before: (X, W),
    after: (X, W),
    outcome: Result<(), E>,
)
    requires
        executed_in_place(launch, words, same_plan, agree, perform, before, after, outcome),
        launch.preflight is Err || (forall|found: Result<(), FftError>| #[trigger]
            same_plan.ensures((launch.operation, &words), found) ==> found is Err) || (forall|all: bool| #[trigger]
            agree.ensures((true,), all) ==> !all),
    ensures
        outcome is Err,
        after == before,
{
}

/// An overlapped execution that cannot start, or on whose transport kernels cannot overlap,
/// fails and changes nothing.
pub proof fn law_unready_overlap_keeps_all<D, E: Failure, Q: Fn(u64, &Vec<u64>) -> Result<(), FftError>, P: Pieces<D, FftOverlapError<E>>, A: Fn(bool) -> bool>(
    launch: OverlapLaunch<E>,
    words: Vec<u64>,
    same_plan: Q,
    agree: A,
    perform: P,
    before: D,
    after: D,
    outcome: Result<(), FftOverlapError<E>>,
)
    requires
        executed_overlapped(launch, words, same_plan, agree, perform, before, after, outcome),
        !agree.ensures((false,), true),
        launch.preflight is Err || !launch.transport || !launch.supported || (forall|found: Result<(), FftError>| #[trigger]
            same_plan.ensures((launch.operation, &words), found) ==> found is Err),
    ensures
        outcome is Err,
        after == before,
        launch.preflight is Ok && !launch.supported && (forall|found: Result<(), FftError>| #[trigger]
            same_plan.ensures((launch.operation, &words), found) ==> found is Ok) && !(exists|all: bool|
            !all && #[trigger] agree.ensures((true,), all)) ==> outcome == Err::<(), FftOverlapError<E>>(
            FftOverlapError::UnsupportedTransport,
        ),
{
}

/// A local outcome that all processes were told of stands only where every process could go on;
/// an own error is kept, and where only another process failed, that is the error.
pub proof fn law_agreement<V, E: Failure>(local: Result<V, E>, all_valid: bool)
    ensures
        agreed_outcome(local, all_valid) is Ok <==> local is Ok && all_valid,
        agreed_outcome(local, all_valid) matches Ok(value) ==> local == Ok::<V, E>(value),
        local is Err ==> agreed_outcome(local, all_valid) == local,
        local is Ok && !all_valid ==> agreed_outcome(local, all_valid) == Err::<V, E>(
            E::spec_of_fft(FftError::CollectivePreconditionFailed),
        ),
{
}

/// A question that was settled holds the local answer, and holds it only where every process could
/// answer. All processes can go on only where this one can.
pub proof fn law_settled<V, E: Failure, A: Fn(bool) -> bool>(
    agree: A,
    local: Result<V, E>,
    outcome: Result<V, E>,
)
    requires
        settled(agree, local, outcome),
    ensures
        outcome is Ok ==> outcome == local && agree.ensures((true,), true),
        local is Err ==> outcome == local,
        local is Ok && outcome is Err ==> agree.ensures((true,), false),
{
}

/// An execution in place marks its array: interrupted while it runs, and behind it as the output of
/// the transform on the way there, as its input on the way home. Nothing else of the array changes.
pub proof fn law_arrays_marked<T: R2rScalar, R: FftReal, const N: usize, const M: usize>(
    plain: R2rInPlaceArray<T, N, M>,
    complex: MixedC2cInPlaceArray<R, N, M>,
    half: R2cInPlaceArray<R, N, M>,
    mixed: MixedR2cInPlaceArray<R, N, M>,
    direction: Direction,
)
    ensures
        plain.interrupted() == (R2rInPlaceArray { state: R2rState::Poisoned, ..plain }),
        complex.interrupted() == (MixedC2cInPlaceArray { state: C2cState::Poisoned, ..complex }),
        half.interrupted() == (R2cInPlaceArray { state: R2cState::Poisoned, ..half }),
        mixed.interrupted() == (MixedR2cInPlaceArray { state: R2cState::Poisoned, ..mixed }),
        plain.completed(direction) == (R2rInPlaceArray {
            state: match direction {
                Direction::Forward => R2rState::Output,
                _ => R2rState::Input,
            },
            ..plain
        }),
        complex.completed(direction) == (MixedC2cInPlaceArray {
            state: match direction {
                Direction::Forward => C2cState::Output,
                _ => C2cState::Input,
            },
            ..complex
        }),
        half.completed(direction) == (R2cInPlaceArray {
            state: match direction {
                Direction::Forward => R2cState::ComplexOutput,
                _ => R2cState::RealInput,
            },
            ..half
        }),
        mixed.completed(direction) == (MixedR2cInPlaceArray {
            state: match direction {
                Direction::Forward => R2cState::ComplexOutput,
                _ => R2cState::RealInput,
            },
            ..mixed
        }),
{
}

/// Executions that differ in the plan, the way, the place or whether they are measured have
/// different words, and so do constructions with different kernels.
pub proof fn law_launch_words_unique(
    left: (PlanFamily, Direction, bool, bool),
    right: (PlanFamily, Direction, bool, bool),
)
    requires
        operation_word_of(run_operation(left.0, left.1, left.2, left.3)) is Some,
        operation_word_of(run_operation(left.0, left.1, left.2, left.3)) == operation_word_of(
            run_operation(right.0, right.1, right.2, right.3),
        ),
    ensures
        left == right,
{
    law_operation_words_unique(
        run_operation(left.0, left.1, left.2, left.3),
        run_operation(right.0, right.1, right.2, right.3),
    );
}

/// An exchange allows overlap exactly where its processes do not all exchange at once; a plan
/// allows it in a direction exactly where all its exchanges in that direction do.
pub proof fn law_overlap_allowed(transitions: Seq<Transition>, direction: Direction)
    ensures
        overlaps(transitions, direction) <==> forall|i: int|
            0 <= i < transitions.len() ==> match direction {
                Direction::Forward => (#[trigger] transitions[i]).forward != ExchangeKind::AllToAllv,
                _ => transitions[i].backward != ExchangeKind::AllToAllv,
            },
        eager_exchanges(transitions, direction).len() == transitions.len(),
        forall|i: int|
            0 <= i < transitions.len() ==> (#[trigger] eager_exchanges(transitions, direction)[i] <==> match direction {
                Direction::Forward => transitions[i].forward == ExchangeKind::PointToPoint,
                _ => transitions[i].backward == ExchangeKind::PointToPoint,
            }),
{
    if forall|i: int|
        0 <= i < transitions.len() ==> match direction {
            Direction::Forward => (#[trigger] transitions[i]).forward != ExchangeKind::AllToAllv,
            _ => transitions[i].backward != ExchangeKind::AllToAllv,
        } {
        assert(overlaps(transitions, direction));
    }
    if overlaps(transitions, direction) {
        assert forall|i: int| 0 <= i < transitions.len() implies match direction {
            Direction::Forward => (#[trigger] transitions[i]).forward != ExchangeKind::AllToAllv,
            _ => transitions[i].backward != ExchangeKind::AllToAllv,
        } by {
            assert(transitions[i].spec_along(direction).spec_allows_overlap());
        }
    }
}

} // verus!
