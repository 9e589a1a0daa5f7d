//! Executions by the clock: it is read in front of each step and behind it, and the report enters
//! what went by between.

use vstd::prelude::*;

use crate::crew::all_done;
use crate::crew::in_turn;
use crate::crew::Crew;
use crate::crew::InTurn;
use crate::crew::Pieces;
use crate::error::Failure;
use crate::error::FftError;
use crate::run::execute;
use crate::run::execute_in_place;
use crate::run::executed;
use crate::run::executed_in_place;
use crate::run::is_piece;
use crate::run::piece_done;
use crate::run::pieces_done;
use crate::run::steps_run;
use crate::run::Launch;
use crate::run::Transacted;
use crate::schedule::Step;
use crate::timing::StageTiming;
use crate::timing::TransformTiming;

verus! {

/// What went by between two readings of a clock; nothing, should it have gone back.
pub open spec fn spec_elapsed(start: u64, end: u64) -> u64 {
    if end >= start {
        (end - start) as u64
    } else {
        0
    }
}

/// Returns what went by between two readings of a clock.
pub fn elapsed(start: u64, end: u64) -> (spent: u64)
    ensures
        spent == spec_elapsed(start, end),
{
    end.saturating_sub(start)
}

/// `spent` went by between two readings of the clock.
pub open spec fn measured<K: Fn() -> u64>(now: K, spent: u64) -> bool {
    exists|start: u64, end: u64| #[trigger]
        now.ensures((), start) && #[trigger] now.ensures((), end) && spent == spec_elapsed(
            start,
            end,
        )
}

/// What a report holds behind a step: the clock was read once in front of it and once behind it, and
/// what went by between was entered for the step.
pub open spec fn reported<K: Fn() -> u64, const N: usize>(
    now: K,
    step: Step,
    before: TransformTiming<N>,
    after: TransformTiming<N>,
) -> bool {
    &&& after.total == before.total
    &&& exists|spent: u64| #[trigger]
        measured(now, spent) && after.stages@ == before.recorded(step, spent)
}

/// A crew by the clock.
pub struct Clocked<'a, C, K> {
    /// Those who do the steps.
    pub crew: &'a C,
    /// Reads the clock, in nanoseconds.
    pub now: &'a K,
}

impl<'a, D, E, C: Crew<D, E>, K: Fn() -> u64, const N: usize> Crew<(D, TransformTiming<N>), E> for Clocked<
    'a,
    C,
    K,
> {
    open spec fn able(&self) -> bool {
        self.crew.able() && self.now.requires(())
    }

    open spec fn fit(&self, state: (D, TransformTiming<N>)) -> bool {
        self.crew.fit(state.0)
    }

    open spec fn does(
        &self,
        step: Step,
        before: (D, TransformTiming<N>),
        after: (D, TransformTiming<N>),
        outcome: Result<(), E>,
    ) -> bool {
        &&& self.crew.does(step, before.0, after.0, outcome)
        &&& reported(*self.now, step, before.1, after.1)
    }

    fn work(&self, step: &Step, state: (D, TransformTiming<N>)) -> (result: (
        (D, TransformTiming<N>),
        Result<(), E>,
    )) {
        let (given, mut report): (D, TransformTiming<N>) = state;
        let start: u64 = (self.now)();
        let (left, outcome): (D, Result<(), E>) = self.crew.work(step, given);
        let end: u64 = (self.now)();
        let spent: u64 = elapsed(start, end);
        report.record(step, spent);
        assert(measured(*self.now, spent));
        ((left, report), outcome)
    }
}

/// A crew by the clock that works in place; the report goes with the workspace.
pub struct ClockedInPlace<'a, C, K> {
    /// Those who do the steps.
    pub crew: &'a C,
    /// Reads the clock, in nanoseconds.
    pub now: &'a K,
}

impl<'a, X, W, E, C: Crew<(X, W), E>, K: Fn() -> u64, const N: usize> Crew<
    (X, (W, TransformTiming<N>)),
    E,
> for ClockedInPlace<'a, C, K> {
    open spec fn able(&self) -> bool {
        self.crew.able() && self.now.requires(())
    }

    open spec fn fit(&self, state: (X, (W, TransformTiming<N>))) -> bool {
        self.crew.fit((state.0, state.1.0))
    }

    open spec fn does(
        &self,
        step: Step,
        before: (X, (W, TransformTiming<N>)),
        after: (X, (W, TransformTiming<N>)),
        outcome: Result<(), E>,
    ) -> bool {
        &&& self.crew.does(step, (before.0, before.1.0), (after.0, after.1.0), outcome)
        &&& reported(*self.now, step, before.1.1, after.1.1)
    }

    fn work(&self, step: &Step, state: (X, (W, TransformTiming<N>))) -> (result: (
        (X, (W, TransformTiming<N>)),
        Result<(), E>,
    )) {
        let (array, (workspace, mut report)): (X, (W, TransformTiming<N>)) = state;
        let start: u64 = (self.now)();
        let (left, outcome): ((X, W), Result<(), E>) = self.crew.work(step, (array, workspace));
        let end: u64 = (self.now)();
        let spent: u64 = elapsed(start, end);
        report.record(step, spent);
        assert(measured(*self.now, spent));
        ((left.0, (left.1, report)), outcome)
    }
}

/// The steps of one crew come to those of another, seen through `view`.
pub open spec fn seen_through<S, D, E, C: Crew<S, E>, O: Crew<D, E>>(
    one: C,
    other: O,
    view: spec_fn(S) -> D,
) -> bool {
    forall|step: Step, from: S, to: S, outcome: Result<(), E>| #[trigger]
        one.does(step, from, to, outcome) ==> other.does(step, view(from), view(to), outcome)
}

proof fn lemma_seen_steps<S, D, E, C: Crew<S, E>, O: Crew<D, E>>(
    one: C,
    other: O,
    view: spec_fn(S) -> D,
    steps: Seq<Step>,
    before: S,
    after: S,
)
    requires
        seen_through::<S, D, E, C, O>(one, other, view),
        all_done::<S, E, C>(one, steps, before, after),
    ensures
        all_done::<D, E, O>(other, steps, view(before), view(after)),
    decreases steps.len(),
{
    if steps.len() > 0 {
        let between = choose|between: S|
            all_done::<S, E, C>(one, steps.drop_last(), before, between) && #[trigger] one.does(
                steps.last(),
                between,
                after,
                Ok(()),
            );
        lemma_seen_steps::<S, D, E, C, O>(one, other, view, steps.drop_last(), before, between);
        assert(other.does(steps.last(), view(between), view(after), Ok(())));
    }
}

proof fn lemma_seen_piece<S, D, E: Failure, C: Crew<S, E>, O: Crew<D, E>, A: Fn(bool) -> bool>(
    one: C,
    other: O,
    view: spec_fn(S) -> D,
    agree: A,
    piece: Seq<Step>,
    before: S,
    after: S,
    outcome: Result<(), E>,
)
    requires
        seen_through::<S, D, E, C, O>(one, other, view),
        piece_done(InTurn { crew: &one }, agree, piece, before, after, outcome),
    ensures
        piece_done(InTurn { crew: &other }, agree, piece, view(before), view(after), outcome),
{
    let pieces = InTurn { crew: &one };
    let others = InTurn { crew: &other };
    assert forall|local: Result<(), E>| #[trigger]
        pieces.done(piece, before, after, local) implies others.done(
        piece,
        view(before),
        view(after),
        local,
    ) by {
        assert(in_turn::<S, E, C>(one, piece, before, after, local));
        match local {
            Ok(_) => {
                lemma_seen_steps::<S, D, E, C, O>(one, other, view, piece, before, after);
            },
            Err(error) => {
                let (at, between) = choose|at: int, between: S|
                    {
                        &&& 0 <= at < piece.len()
                        &&& all_done::<S, E, C>(one, piece.take(at), before, between)
                        &&& #[trigger] one.does(piece[at], between, after, Err(error))
                    };
                lemma_seen_steps::<S, D, E, C, O>(one, other, view, piece.take(at), before, between);
                assert(other.does(piece[at], view(between), view(after), Err(error)));
            },
        }
    }
}

proof fn lemma_seen_pieces<S, D, E: Failure, C: Crew<S, E>, O: Crew<D, E>, A: Fn(bool) -> bool>(
    one: C,
    other: O,
    view: spec_fn(S) -> D,
    agree: A,
    steps: Seq<Step>,
    end: int,
    before: S,
    after: S,
)
    requires
        seen_through::<S, D, E, C, O>(one, other, view),
        pieces_done(InTurn { crew: &one }, agree, steps, end, before, after),
    ensures
        pieces_done(InTurn { crew: &other }, agree, steps, end, view(before), view(after)),
    decreases end,
{
    if end > 0 {
        let (start, between) = choose|start: int, between: S|
            {
                &&& 0 <= start < end
                &&& is_piece(steps, start, end)
                &&& pieces_done(InTurn { crew: &one }, agree, steps, start, before, between)
                &&& #[trigger] piece_done(
                    InTurn { crew: &one },
                    agree,
                    steps.subrange(start, end),
                    between,
                    after,
                    Ok(()),
                )
            };
        lemma_seen_pieces::<S, D, E, C, O, A>(one, other, view, agree, steps, start, before, between);
        lemma_seen_piece::<S, D, E, C, O, A>(
            one,
            other,
            view,
            agree,
            steps.subrange(start, end),
            between,
            after,
            Ok(()),
        );
    }
}

/// A run of a crew whose steps come to those of another is a run of that one.
pub proof fn lemma_seen_run<S, D, E: Failure, C: Crew<S, E>, O: Crew<D, E>, A: Fn(bool) -> bool>(
    one: C,
    other: O,
    view: spec_fn(S) -> D,
    agree: A,
    steps: Seq<Step>,
    before: S,
    after: S,
    outcome: Result<(), E>,
)
    requires
        seen_through::<S, D, E, C, O>(one, other, view),
        steps_run(InTurn { crew: &one }, agree, steps, before, after, outcome),
    ensures
        steps_run(InTurn { crew: &other }, agree, steps, view(before), view(after), outcome),
{
    match outcome {
        Ok(_) => {
            lemma_seen_pieces::<S, D, E, C, O, A>(
                one,
                other,
                view,
                agree,
                steps,
                steps.len() as int,
                before,
                after,
            );
        },
        Err(error) => {
            let (start, end, between) = choose|start: int, end: int, between: S|
                {
                    &&& is_piece(steps, start, end)
                    &&& pieces_done(InTurn { crew: &one }, agree, steps, start, before, between)
                    &&& #[trigger] piece_done(
                        InTurn { crew: &one },
                        agree,
                        steps.subrange(start, end),
                        between,
                        after,
                        Err(error),
                    )
                };
            lemma_seen_pieces::<S, D, E, C, O, A>(
                one,
                other,
                view,
                agree,
                steps,
                start,
                before,
                between,
            );
            lemma_seen_piece::<S, D, E, C, O, A>(
                one,
                other,
                view,
                agree,
                steps.subrange(start, end),
                between,
                after,
                Err(error),
            );
        },
    }
}

/// The outcome of a timed execution, without its report.
pub open spec fn without_report<E, const N: usize>(
    outcome: Result<TransformTiming<N>, E>,
) -> Result<(), E> {
    match outcome {
        Ok(_) => Ok(()),
        Err(error) => Err(error),
    }
}

/// A report that nothing was entered in yet.
pub open spec fn blank<const N: usize>(report: TransformTiming<N>) -> bool {
    &&& report.total == 0
    &&& forall|i: int| 0 <= i < N ==> #[trigger] report.stages@[i] == StageTiming::nothing()
}

/// The report that is handed out: the stages as they were entered, and what went by in all.
pub open spec fn handed_out<E, K: Fn() -> u64, const N: usize>(
    now: K,
    entered: TransformTiming<N>,
    outcome: Result<TransformTiming<N>, E>,
) -> bool {
    match outcome {
        Ok(report) => report.stages == entered.stages && measured(now, report.total),
        Err(_) => true,
    }
}

/// What a timed out-of-place execution comes to: to the same as one that is not timed, with each step
/// entered in the report.
pub open spec fn executed_timed<D, E: Failure, Q: Fn(u64, &Vec<u64>) -> Result<(), FftError>, C: Crew<D, E>, A: Fn(bool) -> bool, K: Fn() -> u64, const N: usize>(
    launch: Launch<E>,
    words: Vec<u64>,
    same_plan: Q,
    agree: A,
    crew: C,
    now: K,
    before: D,
    after: D,
    outcome: Result<TransformTiming<N>, E>,
) -> bool {
    &&& executed(
        launch,
        words,
        same_plan,
        agree,
        InTurn { crew: &crew },
        before,
        after,
        without_report(outcome),
    )
    &&& exists|unmeasured: TransformTiming<N>, entered: TransformTiming<N>|
        {
            &&& #[trigger] blank(unmeasured)
            &&& #[trigger] handed_out(now, entered, outcome)
            &&& executed(
                launch,
                words,
                same_plan,
                agree,
                InTurn { crew: &Clocked { crew: &crew, now: &now } },
                (before, unmeasured),
                (after, entered),
                without_report(outcome),
            )
        }
}

/// Executes a plan out of place and measures it.
pub fn execute_timed<D, E: Failure, Q: Fn(u64, &Vec<u64>) -> Result<(), FftError>, C: Crew<D, E>, A: Fn(bool) -> bool, K: Fn() -> u64, const N: usize>(
    launch: Launch<E>,
    words: &Vec<u64>,
    same_plan: &Q,
    agree: &A,
    crew: &C,
    now: &K,
    state: D,
) -> (result: (D, Result<TransformTiming<N>, E>))
    requires
        forall|operation: u64, given: &Vec<u64>| #[trigger]
            same_plan.requires((operation, given)),
        forall|valid: bool| #[trigger] agree.requires((valid,)),
        now.requires(()),
        crew.able(),
        crew.fit(state),
    ensures
        executed_timed(
            launch,
            *words,
            *same_plan,
            *agree,
            *crew,
            *now,
            state,
            result.0,
            result.1,
        ),
{
    let clocked: Clocked<C, K> = Clocked { crew, now };
    let pieces: InTurn<Clocked<C, K>> = InTurn { crew: &clocked };
    let ghost before = state;
    let ghost asked = launch;
    let unmeasured: TransformTiming<N> = TransformTiming::unmeasured();
    let start: u64 = now();
    let ((after, entered), outcome): ((D, TransformTiming<N>), Result<(), E>) = execute(
        launch,
        words,
        same_plan,
        agree,
        &pieces,
        (state, unmeasured),
    );
    let end: u64 = now();
    let total: u64 = elapsed(start, end);
    assert(measured(*now, total));
    let result: Result<TransformTiming<N>, E> = match outcome {
        Ok(done) => {
            assert(outcome == Ok::<(), E>(()));
            Ok(TransformTiming { stages: entered.stages, total })
        },
        Err(error) => Err(error),
    };
    proof {
        assert(outcome == without_report(result));
        assert(blank(unmeasured));
        assert(handed_out(*now, entered, result));
        let view = |seen: (D, TransformTiming<N>)| seen.0;
        assert(seen_through::<(D, TransformTiming<N>), D, E, Clocked<C, K>, C>(
            clocked,
            *crew,
            view,
        ));
        if steps_run(pieces, *agree, asked.steps@, (before, unmeasured), (after, entered), outcome) {
            lemma_seen_run::<(D, TransformTiming<N>), D, E, Clocked<C, K>, C, A>(
                clocked,
                *crew,
                view,
                *agree,
                asked.steps@,
                (before, unmeasured),
                (after, entered),
                outcome,
            );
        }
    }
    (after, result)
}

/// What a timed in-place execution comes to: to the same as one that is not timed, with each step
/// entered in the report.
pub open spec fn executed_timed_in_place<X: Transacted, W, E: Failure, Q: Fn(u64, &Vec<u64>) -> Result<(), FftError>, C: Crew<(X, W), E>, A: Fn(bool) -> bool, K: Fn() -> u64, const N: usize>(
    launch: Launch<E>,
    words: Vec<u64>,
    same_plan: Q,
    agree: A,
    crew: C,
    now: K,
    before: (X, W),
    after: (X, W),
    outcome: Result<TransformTiming<N>, E>,
) -> bool {
    &&& executed_in_place(
        launch,
        words,
        same_plan,
        agree,
        InTurn { crew: &crew },
        before,
        after,
        without_report(outcome),
    )
    &&& exists|unmeasured: TransformTiming<N>, entered: TransformTiming<N>|
        {
            &&& #[trigger] blank(unmeasured)
            &&& #[trigger] handed_out(now, entered, outcome)
            &&& executed_in_place(
                launch,
                words,
                same_plan,
                agree,
                InTurn { crew: &ClockedInPlace { crew: &crew, now: &now } },
                (before.0, (before.1, unmeasured)),
                (after.0, (after.1, entered)),
                without_report(outcome),
            )
        }
}

/// Executes a plan in place and measures it.
pub fn execute_timed_in_place<X: Transacted, W, E: Failure, Q: Fn(u64, &Vec<u64>) -> Result<(), FftError>, C: Crew<(X, W), E>, A: Fn(bool) -> bool, K: Fn() -> u64, const N: usize>(
    launch: Launch<E>,
    words: &Vec<u64>,
    same_plan: &Q,
    agree: &A,
    crew: &C,
    now: &K,
    state: (X, W),
) -> (result: ((X, W), Result<TransformTiming<N>, E>))
    requires
        forall|operation: u64, given: &Vec<u64>| #[trigger]
            same_plan.requires((operation, given)),
        forall|valid: bool| #[trigger] agree.requires((valid,)),
        now.requires(()),
        crew.able(),
        crew.fit((state.0.interrupted(), state.1)),
    ensures
        executed_timed_in_place(
            launch,
            *words,
            *same_plan,
            *agree,
            *crew,
            *now,
            state,
            result.0,
            result.1,
        ),
{
    let clocked: ClockedInPlace<C, K> = ClockedInPlace { crew, now };
    let pieces: InTurn<ClockedInPlace<C, K>> = InTurn { crew: &clocked };
    let ghost before = state;
    let ghost asked = launch;
    let unmeasured: TransformTiming<N> = TransformTiming::unmeasured();
    let start: u64 = now();
    let ((array, (workspace, entered)), outcome): (
        (X, (W, TransformTiming<N>)),
        Result<(), E>,
    ) = execute_in_place(
        launch,
        words,
        same_plan,
        agree,
        &pieces,
        (state.0, (state.1, unmeasured)),
    );
    let end: u64 = now();
    let total: u64 = elapsed(start, end);
    assert(measured(*now, total));
    let result: Result<TransformTiming<N>, E> = match outcome {
        Ok(done) => {
            assert(outcome == Ok::<(), E>(()));
            Ok(TransformTiming { stages: entered.stages, total })
        },
        Err(error) => Err(error),
    };
    proof {
        assert(outcome == without_report(result));
        assert(blank(unmeasured));
        assert(handed_out(*now, entered, result));
        let view = |seen: (X, (W, TransformTiming<N>))| (seen.0, seen.1.0);
        assert(seen_through::<(X, (W, TransformTiming<N>)), (X, W), E, ClockedInPlace<C, K>, C>(
            clocked,
            *crew,
            view,
        ));
        let begun = (before.0.interrupted(), (before.1, unmeasured));
        assert forall|left: (X, (W, TransformTiming<N>))| #[trigger]
            steps_run(pieces, *agree, asked.steps@, begun, left, outcome) implies steps_run(
            InTurn { crew },
            *agree,
            asked.steps@,
            view(begun),
            view(left),
            outcome,
        ) by {
            lemma_seen_run::<
                (X, (W, TransformTiming<N>)),
                (X, W),
                E,
                ClockedInPlace<C, K>,
                C,
                A,
            >(clocked, *crew, view, *agree, asked.steps@, begun, left, outcome);
        }
    }
    ((array, workspace), result)
}

} // verus!
