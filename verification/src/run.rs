//! Running a schedule: what starts it, in which pieces it is done, and what ends it.

use vstd::prelude::*;

use vstd::slice::slice_subrange;

use crate::crew::Crew;
use crate::crew::Pieces;
use crate::error::Failure;
use crate::error::FftError;
use crate::error::FftOverlapError;
use crate::layout::Direction;
use crate::schedule::Step;
use crate::words::operation_word_of;
use crate::words::Operation;
use crate::workspace::verdict_of;

verus! {

/// What a process reports after all have told whether they could go on.
pub open spec fn agreed_outcome<T, E: Failure>(local: Result<T, E>, all_valid: bool) -> Result<T, E> {
    match local {
        Err(error) => Err(error),
        Ok(value) => if all_valid {
            Ok(value)
        } else {
            Err(E::spec_of_fft(FftError::CollectivePreconditionFailed))
        },
    }
}

/// Returns what a process reports after all have told whether they could go on: its own error
/// first, else that another one failed.
pub fn agreed<T, E: Failure>(local: Result<T, E>, all_valid: bool) -> (result: Result<T, E>)
    ensures
        result == agreed_outcome(local, all_valid),
{
    match local {
        Err(error) => Err(error),
        Ok(value) => if all_valid {
            Ok(value)
        } else {
            Err(E::of_fft(FftError::CollectivePreconditionFailed))
        },
    }
}

/// An execution that has not started: the word and the preflight that processes agree on, and the
/// steps that follow.
#[derive(Debug)]
pub struct Launch<E> {
    /// The word of the operation.
    pub operation: u64,
    /// Which way it goes.
    pub direction: Direction,
    /// What this process found wrong with its arguments.
    pub preflight: Result<(), E>,
    /// The steps.
    pub steps: Vec<Step>,
}

/// Whether an execution starts: first the descriptors must agree, then all preflights must hold.
pub open spec fn admitted<E: Failure>(
    descriptor: Result<(), FftError>,
    preflight: Result<(), E>,
    all_valid: bool,
) -> Result<(), E> {
    match descriptor {
        Err(error) => Err(E::spec_of_fft(error)),
        Ok(_) => agreed_outcome(preflight, all_valid),
    }
}

impl<E: Failure> Launch<E> {
    /// The execution that `operation` names, with what its preflight found and its steps.
    pub open spec fn describes(&self, operation: Operation, direction: Direction, error: Option<FftError>, steps: Seq<Step>) -> bool {
        &&& operation_word_of(operation) == Some(self.operation)
        &&& self.direction == direction
        &&& self.preflight == verdict_of::<E>(error)
        &&& self.steps@ == steps
    }

    /// Hands out the steps if the execution starts. Nothing has been written if it does not.
    pub fn start(self, descriptor: Result<(), FftError>, all_valid: bool) -> (result: Result<
        Vec<Step>,
        E,
    >)
        ensures
            match admitted(descriptor, self.preflight, all_valid) {
                Ok(_) => result == Ok::<Vec<Step>, E>(self.steps),
                Err(error) => result == Err::<Vec<Step>, E>(error),
            },
    {
        match descriptor {
            Err(error) => {
                return Err(E::of_fft(error));
            },
            Ok(_) => {},
        }
        match agreed(self.preflight, all_valid) {
            Ok(_) => Ok(self.steps),
            Err(error) => Err(error),
        }
    }
}

/// An execution with overlap that has not started.
#[derive(Debug)]
pub struct OverlapLaunch<E> {
    /// The word of the operation.
    pub operation: u64,
    /// Which way it goes.
    pub direction: Direction,
    /// Whether the plan's transport allows overlap, where that is asked first.
    pub transport: bool,
    /// What this process found wrong with its arguments.
    pub preflight: Result<(), E>,
    /// Whether every exchange of this process allows overlap.
    pub supported: bool,
    /// The steps.
    pub steps: Vec<Step>,
}

/// Whether an execution with overlap starts: the descriptors must agree, the transport must be
/// point to point, all preflights must hold, and every exchange must allow it.
pub open spec fn overlap_admitted<E: Failure>(
    descriptor: Result<(), FftError>,
    transport: bool,
    preflight: Result<(), E>,
    all_valid: bool,
    all_supported: bool,
) -> Result<(), FftOverlapError<E>> {
    match descriptor {
        Err(error) => Err(FftOverlapError::Operation(E::spec_of_fft(error))),
        Ok(_) => if !transport {
            Err(FftOverlapError::UnsupportedTransport)
        } else {
            match agreed_outcome(preflight, all_valid) {
                Err(error) => Err(FftOverlapError::Operation(error)),
                Ok(_) => if all_supported {
                    Ok(())
                } else {
                    Err(FftOverlapError::UnsupportedTransport)
                },
            }
        },
    }
}

impl<E: Failure> OverlapLaunch<E> {
    /// The execution that `operation` names, with what its preflight found, whether its exchanges
    /// allow overlap, and its steps.
    pub open spec fn describes(&self, operation: Operation, direction: Direction, transport: bool, error: Option<FftError>, supported: bool, steps: Seq<Step>) -> bool {
        &&& operation_word_of(operation) == Some(self.operation)
        &&& self.direction == direction
        &&& self.transport == transport
        &&& self.preflight == verdict_of::<E>(error)
        &&& self.supported == supported
        &&& self.steps@ == steps
    }

    /// Hands out the steps if the execution starts. Nothing has been written if it does not.
    pub fn start(
        self,
        descriptor: Result<(), FftError>,
        all_valid: bool,
        all_supported: bool,
    ) -> (result: Result<Vec<Step>, FftOverlapError<E>>)
        ensures
            match overlap_admitted(
                descriptor,
                self.transport,
                self.preflight,
                all_valid,
                all_supported,
            ) {
                Ok(_) => result == Ok::<Vec<Step>, FftOverlapError<E>>(self.steps),
                Err(error) => result == Err::<Vec<Step>, FftOverlapError<E>>(error),
            },
    {
        match descriptor {
            Err(error) => {
                return Err(FftOverlapError::Operation(E::of_fft(error)));
            },
            Ok(_) => {},
        }
        if !self.transport {
            return Err(FftOverlapError::UnsupportedTransport);
        }
        match agreed(self.preflight, all_valid) {
            Ok(_) => {},
            Err(error) => {
                return Err(FftOverlapError::Operation(error));
            },
        }
        if all_supported {
            Ok(self.steps)
        } else {
            Err(FftOverlapError::UnsupportedTransport)
        }
    }
}

/// `end` ends a piece that starts at `start`: the steps between belong together, and no more do.
pub open spec fn is_piece(steps: Seq<Step>, start: int, end: int) -> bool {
    &&& 0 <= start < end <= steps.len()
    &&& forall|i: int| start < i < end ==> (#[trigger] steps[i]).joined
    &&& end < steps.len() ==> !steps[end].joined
}

/// Finds where the piece that starts at `start` ends.
pub fn piece_end(steps: &Vec<Step>, start: usize) -> (end: usize)
    requires
        start < steps@.len(),
    ensures
        is_piece(steps@, start as int, end as int),
{
    let available: usize = steps.len();
    let mut end: usize = start + 1;
    while end < available && steps[end].joined
        invariant
            steps@.len() == available,
            start < end <= available,
            forall|i: int| start < i < end ==> (#[trigger] steps@[i]).joined,
        decreases steps@.len() - end,
    {
        end += 1;
    }
    end
}

/// What doing one piece comes to: its own outcome, or what the processes agree on.
pub open spec fn piece_done<D, E: Failure, P: Pieces<D, E>, A: Fn(bool) -> bool>(
    perform: P,
    agree: A,
    piece: Seq<Step>,
    before: D,
    after: D,
    outcome: Result<(), E>,
) -> bool {
    exists|local: Result<(), E>|
        {
            &&& #[trigger] perform.done(piece, before, after, local)
            &&& if piece.last().agreed {
                exists|all_valid: bool|
                    {
                        &&& #[trigger] agree.ensures((local is Ok,), all_valid)
                        &&& outcome == agreed_outcome(local, all_valid)
                    }
            } else {
                outcome == local
            }
        }
}

/// The pieces up to step `end` were done one after the other, and all succeeded.
pub open spec fn pieces_done<D, E: Failure, P: Pieces<D, E>, A: Fn(bool) -> bool>(
    perform: P,
    agree: A,
    steps: Seq<Step>,
    end: int,
    before: D,
    after: D,
) -> bool
    decreases end,
{
    if end <= 0 {
        after == before
    } else {
        exists|start: int, between: D|
            {
                &&& 0 <= start < end
                &&& is_piece(steps, start, end)
                &&& pieces_done(perform, agree, steps, start, before, between)
                &&& #[trigger] piece_done(
                    perform,
                    agree,
                    steps.subrange(start, end),
                    between,
                    after,
                    Ok(()),
                )
            }
    }
}

/// A run that ended with `error`: the pieces before step `start` succeeded, and the next did not.
pub open spec fn run_failed<D, E: Failure, P: Pieces<D, E>, A: Fn(bool) -> bool>(
    perform: P,
    agree: A,
    steps: Seq<Step>,
    before: D,
    after: D,
    error: E,
) -> bool {
    exists|start: int, end: int, between: D|
        {
            &&& is_piece(steps, start, end)
            &&& pieces_done(perform, agree, steps, start, before, between)
            &&& #[trigger] piece_done(
                perform,
                agree,
                steps.subrange(start, end),
                between,
                after,
                Err(error),
            )
        }
}

/// Runs steps piece by piece, until one fails or all are done.
pub fn run_steps<D, E: Failure, P: Pieces<D, E>, A: Fn(bool) -> bool>(
    perform: &P,
    agree: &A,
    steps: &Vec<Step>,
    state: D,
) -> (result: (D, Result<(), E>))
    requires
        perform.able(),
        perform.fit(state),
        forall|valid: bool| #[trigger] agree.requires((valid,)),
    ensures
        result.1 is Ok ==> perform.fit(result.0),
        match result.1 {
            Ok(_) => pieces_done(
                *perform,
                *agree,
                steps@,
                steps@.len() as int,
                state,
                result.0,
            ),
            Err(error) => run_failed(*perform, *agree, steps@, state, result.0, error),
        },
{
    let ghost before = state;
    let mut current = state;
    let mut at: usize = 0;
    while at < steps.len()
        invariant
            before == state,
            at <= steps@.len(),
            perform.able(),
            perform.fit(current),
            forall|valid: bool| #[trigger] agree.requires((valid,)),
            pieces_done(*perform, *agree, steps@, at as int, before, current),
        decreases steps@.len() - at,
    {
        let end: usize = piece_end(steps, at);
        let piece: &[Step] = slice_subrange(steps.as_slice(), at, end);
        let ghost between = current;
        let (after, local): (D, Result<(), E>) = perform.perform(piece, current);
        current = after;
        let outcome: Result<(), E> = if piece[end - at - 1].agreed {
            let all_valid: bool = agree(local.is_ok());
            agreed(local, all_valid)
        } else {
            local
        };
        assert(piece@ == steps@.subrange(at as int, end as int));
        assert(piece_done(
            *perform,
            *agree,
            steps@.subrange(at as int, end as int),
            between,
            current,
            outcome,
        ));
        match outcome {
            Ok(done) => {
                assert(outcome == Ok::<(), E>(()));
                assert(pieces_done(*perform, *agree, steps@, end as int, before, current));
            },
            Err(error) => {
                assert(outcome == Err::<(), E>(error));
                assert(run_failed(*perform, *agree, steps@, before, current, error));
                return (current, Err(error));
            },
        }
        at = end;
    }
    (current, Ok(()))
}

/// What running the steps of an execution comes to.
pub open spec fn steps_run<D, E: Failure, P: Pieces<D, E>, A: Fn(bool) -> bool>(
    perform: P,
    agree: A,
    steps: Seq<Step>,
    before: D,
    after: D,
    outcome: Result<(), E>,
) -> bool {
    match outcome {
        Ok(_) => pieces_done(perform, agree, steps, steps.len() as int, before, after),
        Err(error) => run_failed(perform, agree, steps, before, after, error),
    }
}

/// The processes agree on the plan and the preflights of an execution, or not.
pub open spec fn admission<E: Failure, Q: Fn(u64, &Vec<u64>) -> Result<(), FftError>, A: Fn(bool) -> bool>(
    launch: Launch<E>,
    words: Vec<u64>,
    same_plan: Q,
    agree: A,
    outcome: Result<(), E>,
) -> bool {
    exists|descriptor: Result<(), FftError>|
        {
            &&& #[trigger] same_plan.ensures((launch.operation, &words), descriptor)
            &&& match descriptor {
                Err(error) => outcome == Err::<(), E>(E::spec_of_fft(error)),
                Ok(_) => exists|all_valid: bool|
                    {
                        &&& #[trigger] agree.ensures((launch.preflight is Ok,), all_valid)
                        &&& outcome == agreed_outcome(launch.preflight, all_valid)
                    },
            }
        }
}

/// Asks whether an execution starts.
pub fn start_launch<E: Failure, Q: Fn(u64, &Vec<u64>) -> Result<(), FftError>, A: Fn(bool) -> bool>(
    launch: Launch<E>,
    words: &Vec<u64>,
    same_plan: &Q,
    agree: &A,
) -> (result: Result<Vec<Step>, E>)
    requires
        forall|operation: u64, given: &Vec<u64>| #[trigger]
            same_plan.requires((operation, given)),
        forall|valid: bool| #[trigger] agree.requires((valid,)),
    ensures
        match result {
            Ok(steps) => steps == launch.steps && admission(
                launch,
                *words,
                *same_plan,
                *agree,
                Ok(()),
            ),
            Err(error) => admission(launch, *words, *same_plan, *agree, Err(error)),
        },
{
    let descriptor: Result<(), FftError> = same_plan(launch.operation, words);
    assert(same_plan.ensures((launch.operation, words), descriptor));
    match descriptor {
        Ok(_) => {
            let all_valid: bool = agree(launch.preflight.is_ok());
            launch.start(Ok(()), all_valid)
        },
        Err(error) => Err(E::of_fft(error)),
    }
}

/// What an out-of-place execution comes to: nothing happens unless it starts.
pub open spec fn executed<D, E: Failure, Q: Fn(u64, &Vec<u64>) -> Result<(), FftError>, P: Pieces<D, E>, A: Fn(bool) -> bool>(
    launch: Launch<E>,
    words: Vec<u64>,
    same_plan: Q,
    agree: A,
    perform: P,
    before: D,
    after: D,
    outcome: Result<(), E>,
) -> bool {
    ||| outcome is Err && admission(launch, words, same_plan, agree, outcome) && after == before
    ||| {
        &&& admission(launch, words, same_plan, agree, Ok(()))
        &&& steps_run(perform, agree, launch.steps@, before, after, outcome)
    }
}

/// Executes a plan out of place.
pub fn execute<D, E: Failure, Q: Fn(u64, &Vec<u64>) -> Result<(), FftError>, P: Pieces<D, E>, A: Fn(bool) -> bool>(
    launch: Launch<E>,
    words: &Vec<u64>,
    same_plan: &Q,
    agree: &A,
    perform: &P,
    state: D,
) -> (result: (D, Result<(), E>))
    requires
        forall|operation: u64, given: &Vec<u64>| #[trigger]
            same_plan.requires((operation, given)),
        forall|valid: bool| #[trigger] agree.requires((valid,)),
        perform.able(),
        perform.fit(state),
    ensures
        executed(
            launch,
            *words,
            *same_plan,
            *agree,
            *perform,
            state,
            result.0,
            result.1,
        ),
{
    match start_launch(launch, words, same_plan, agree) {
        Ok(steps) => run_steps(perform, agree, &steps, state),
        Err(error) => (state, Err(error)),
    }
}

/// An array that counts as interrupted while an execution changes it.
pub trait Transacted: Sized {
    /// The array, marked as interrupted.
    spec fn interrupted(self) -> Self;

    /// The array, in the state behind an execution.
    spec fn completed(self, direction: Direction) -> Self;

    /// Marks the array as interrupted.
    fn interrupt(self) -> (marked: Self)
        ensures
            marked == self.interrupted(),
    ;

    /// Gives the array the state behind an execution.
    fn complete(self, direction: Direction) -> (done: Self)
        ensures
            done == self.completed(direction),
    ;
}

/// What an in-place execution comes to: nothing happens unless it starts; the array counts as
/// interrupted from then on, and only success gives it the state behind the execution.
pub open spec fn executed_in_place<X: Transacted, W, E: Failure, Q: Fn(u64, &Vec<u64>) -> Result<(), FftError>, P: Pieces<(X, W), E>, A: Fn(bool) -> bool>(
    launch: Launch<E>,
    words: Vec<u64>,
    same_plan: Q,
    agree: A,
    perform: P,
    before: (X, W),
    after: (X, W),
    outcome: Result<(), E>,
) -> bool {
    ||| outcome is Err && admission(launch, words, same_plan, agree, outcome) && after == before
    ||| {
        &&& admission(launch, words, same_plan, agree, Ok(()))
        &&& exists|left: (X, W)| #[trigger]
            steps_run(
                perform,
                agree,
                launch.steps@,
                (before.0.interrupted(), before.1),
                left,
                outcome,
            ) && after == if outcome is Ok {
                (left.0.completed(launch.direction), left.1)
            } else {
                left
            }
    }
}

/// Executes a plan in place.
pub fn execute_in_place<X: Transacted, W, E: Failure, Q: Fn(u64, &Vec<u64>) -> Result<(), FftError>, P: Pieces<(X, W), E>, A: Fn(bool) -> bool>(
    launch: Launch<E>,
    words: &Vec<u64>,
    same_plan: &Q,
    agree: &A,
    perform: &P,
    state: (X, W),
) -> (result: ((X, W), Result<(), E>))
    requires
        forall|operation: u64, given: &Vec<u64>| #[trigger]
            same_plan.requires((operation, given)),
        forall|valid: bool| #[trigger] agree.requires((valid,)),
        perform.able(),
        perform.fit((state.0.interrupted(), state.1)),
    ensures
        executed_in_place(
            launch,
            *words,
            *same_plan,
            *agree,
            *perform,
            state,
            result.0,
            result.1,
        ),
{
    let direction: Direction = launch.direction;
    match start_launch(launch, words, same_plan, agree) {
        Err(error) => (state, Err(error)),
        Ok(steps) => {
            let (array, workspace) = state;
            let begun: (X, W) = (array.interrupt(), workspace);
            let (left, outcome): ((X, W), Result<(), E>) = run_steps(
                perform,
                agree,
                &steps,
                begun,
            );
            assert(steps_run(*perform, *agree, steps@, begun, left, outcome));
            match outcome {
                Ok(done) => ((left.0.complete(direction), left.1), Ok(done)),
                Err(error) => (left, Err(error)),
            }
        },
    }
}

/// What every piece of an execution keeps, the whole execution keeps, whether it succeeds or not.
pub proof fn law_kept_by_pieces<D, E: Failure, P: Pieces<D, E>, A: Fn(bool) -> bool>(
    perform: P,
    agree: A,
    steps: Seq<Step>,
    before: D,
    after: D,
    outcome: Result<(), E>,
    kept: spec_fn(D) -> bool,
)
    requires
        steps_run(perform, agree, steps, before, after, outcome),
        kept(before),
        forall|piece: Seq<Step>, from: D, to: D, local: Result<(), E>| #[trigger]
            perform.done(piece, from, to, local) && kept(from) ==> kept(to),
    ensures
        kept(after),
{
    match outcome {
        Ok(_) => {
            lemma_kept_before::<D, E, P, A>(
                perform,
                agree,
                steps,
                steps.len() as int,
                before,
                after,
                kept,
            );
        },
        Err(error) => {
            let (start, end, between) = choose|start: int, end: int, between: D|
                {
                    &&& is_piece(steps, start, end)
                    &&& pieces_done(perform, agree, steps, start, before, between)
                    &&& #[trigger] piece_done(
                        perform,
                        agree,
                        steps.subrange(start, end),
                        between,
                        after,
                        Err(error),
                    )
                };
            lemma_kept_before::<D, E, P, A>(perform, agree, steps, start, before, between, kept);
        },
    }
}

proof fn lemma_kept_before<D, E: Failure, P: Pieces<D, E>, A: Fn(bool) -> bool>(
    perform: P,
    agree: A,
    steps: Seq<Step>,
    end: int,
    before: D,
    after: D,
    kept: spec_fn(D) -> bool,
)
    requires
        pieces_done(perform, agree, steps, end, before, after),
        kept(before),
        forall|piece: Seq<Step>, from: D, to: D, local: Result<(), E>| #[trigger]
            perform.done(piece, from, to, local) && kept(from) ==> kept(to),
    ensures
        kept(after),
    decreases end,
{
    if end > 0 {
        let (start, between) = choose|start: int, between: D|
            {
                &&& 0 <= start < end
                &&& is_piece(steps, start, end)
                &&& pieces_done(perform, agree, steps, start, before, between)
                &&& #[trigger] piece_done(
                    perform,
                    agree,
                    steps.subrange(start, end),
                    between,
                    after,
                    Ok(()),
                )
            };
        lemma_kept_before::<D, E, P, A>(perform, agree, steps, start, before, between, kept);
    }
}

/// The processes agree on the plan, the preflights and the exchanges of an execution with overlap,
/// or not.
pub open spec fn overlap_admission<E: Failure, Q: Fn(u64, &Vec<u64>) -> Result<(), FftError>, A: Fn(bool) -> bool>(
    launch: OverlapLaunch<E>,
    words: Vec<u64>,
    same_plan: Q,
    agree: A,
    outcome: Result<(), FftOverlapError<E>>,
) -> bool {
    exists|descriptor: Result<(), FftError>|
        {
            &&& #[trigger] same_plan.ensures((launch.operation, &words), descriptor)
            &&& match descriptor {
                Err(error) => outcome == Err::<(), FftOverlapError<E>>(
                    FftOverlapError::Operation(E::spec_of_fft(error)),
                ),
                Ok(_) => if !launch.transport {
                    outcome == Err::<(), FftOverlapError<E>>(FftOverlapError::UnsupportedTransport)
                } else {
                    exists|all_valid: bool|
                        {
                            &&& #[trigger] agree.ensures((launch.preflight is Ok,), all_valid)
                            &&& match agreed_outcome(launch.preflight, all_valid) {
                                Err(error) => outcome == Err::<(), FftOverlapError<E>>(
                                    FftOverlapError::Operation(error),
                                ),
                                Ok(_) => overlap_allowed(launch.supported, agree, outcome),
                            }
                        }
                },
            }
        }
}

/// All processes allow overlap, or not.
pub open spec fn overlap_allowed<E, A: Fn(bool) -> bool>(
    supported: bool,
    agree: A,
    outcome: Result<(), FftOverlapError<E>>,
) -> bool {
    exists|all_supported: bool|
        {
            &&& #[trigger] agree.ensures((supported,), all_supported)
            &&& outcome == if all_supported {
                Ok::<(), FftOverlapError<E>>(())
            } else {
                Err(FftOverlapError::UnsupportedTransport)
            }
        }
}

/// What an execution with overlap comes to: nothing happens unless it starts.
pub open spec fn executed_overlapped<D, E: Failure, Q: Fn(u64, &Vec<u64>) -> Result<(), FftError>, P: Pieces<D, FftOverlapError<E>>, A: Fn(bool) -> bool>(
    launch: OverlapLaunch<E>,
    words: Vec<u64>,
    same_plan: Q,
    agree: A,
    perform: P,
    before: D,
    after: D,
    outcome: Result<(), FftOverlapError<E>>,
) -> bool {
    ||| outcome is Err && overlap_admission(launch, words, same_plan, agree, outcome) && after
        == before
    ||| {
        &&& overlap_admission(launch, words, same_plan, agree, Ok(()))
        &&& steps_run(perform, agree, launch.steps@, before, after, outcome)
    }
}

/// Executes a plan with each kernel inside the receive of the exchange before it.
pub fn execute_overlapped<D, E: Failure, Q: Fn(u64, &Vec<u64>) -> Result<(), FftError>, P: Pieces<D, FftOverlapError<E>>, A: Fn(bool) -> bool>(
    launch: OverlapLaunch<E>,
    words: &Vec<u64>,
    same_plan: &Q,
    agree: &A,
    perform: &P,
    state: D,
) -> (result: (D, Result<(), FftOverlapError<E>>))
    requires
        forall|operation: u64, given: &Vec<u64>| #[trigger]
            same_plan.requires((operation, given)),
        forall|valid: bool| #[trigger] agree.requires((valid,)),
        perform.able(),
        perform.fit(state),
    ensures
        executed_overlapped(
            launch,
            *words,
            *same_plan,
            *agree,
            *perform,
            state,
            result.0,
            result.1,
        ),
{
    let descriptor: Result<(), FftError> = same_plan(launch.operation, words);
    assert(same_plan.ensures((launch.operation, words), descriptor));
    match descriptor {
        Ok(_) => {},
        Err(error) => {
            return (state, Err(FftOverlapError::Operation(E::of_fft(error))));
        },
    }
    if !launch.transport {
        return (state, Err(FftOverlapError::UnsupportedTransport));
    }
    let all_valid: bool = agree(launch.preflight.is_ok());
    match agreed(launch.preflight, all_valid) {
        Ok(_) => {},
        Err(error) => {
            return (state, Err(FftOverlapError::Operation(error)));
        },
    }
    let all_supported: bool = agree(launch.supported);
    assert(agree.ensures((launch.supported,), all_supported));
    if !all_supported {
        assert(overlap_allowed::<E, A>(
            launch.supported,
            *agree,
            Err(FftOverlapError::UnsupportedTransport),
        ));
        return (state, Err(FftOverlapError::UnsupportedTransport));
    }
    assert(overlap_allowed::<E, A>(launch.supported, *agree, Ok(())));
    run_steps(perform, agree, &launch.steps, state)
}

/// An in-place execution that fails leaves the array as it was, or interrupted, where no piece
/// takes the mark away.
pub proof fn law_failed_array_interrupted<X: Transacted, W, E: Failure, Q: Fn(u64, &Vec<u64>) -> Result<(), FftError>, P: Pieces<(X, W), E>, A: Fn(bool) -> bool>(
    launch: Launch<E>,
    words: Vec<u64>,
    same_plan: Q,
    agree: A,
    perform: P,
    before: (X, W),
    after: (X, W),
    error: E,
    marked: spec_fn(X) -> bool,
)
    requires
        executed_in_place(launch, words, same_plan, agree, perform, before, after, Err(error)),
        marked(before.0.interrupted()),
        forall|piece: Seq<Step>, from: (X, W), to: (X, W), local: Result<(), E>| #[trigger]
            perform.done(piece, from, to, local) && marked(from.0) ==> marked(to.0),
    ensures
        after == before || marked(after.0),
{
    if after != before {
        law_kept_by_pieces::<(X, W), E, P, A>(
            perform,
            agree,
            launch.steps@,
            (before.0.interrupted(), before.1),
            after,
            Err(error),
            |state: (X, W)| marked(state.0),
        );
    }
}

} // verus!
