//! When an execution is owed to succeed: where the plans are the same, the arguments are in order,
//! the processes go on, and no step of its own fails.

use vstd::prelude::*;

use crate::crew::all_done;
use crate::crew::in_turn;
use crate::crew::Crew;
use crate::crew::InTurn;
use crate::crew::Pieces;
use crate::error::Failure;
use crate::error::FftError;
use crate::error::FftOverlapError;
use crate::run::admission;
use crate::run::executed;
use crate::run::executed_in_place;
use crate::run::executed_overlapped;
use crate::run::is_piece;
use crate::run::overlap_admission;
use crate::run::piece_done;
use crate::run::pieces_done;
use crate::run::steps_run;
use crate::run::Launch;
use crate::run::OverlapLaunch;
use crate::run::Transacted;
use crate::schedule::Step;
use crate::transaction::plan_shared;

verus! {

/// Where this process can go on, all can.
pub open spec fn goes_on<A: Fn(bool) -> bool>(agree: A) -> bool {
    forall|all_valid: bool| #[trigger] agree.ensures((true,), all_valid) ==> all_valid
}

/// An execution starts on all processes: the plans are the same, the arguments are in order, and the
/// processes go on.
pub open spec fn ready<E, Q: Fn(u64, &Vec<u64>) -> Result<(), FftError>, A: Fn(bool) -> bool>(
    launch: Launch<E>,
    words: Vec<u64>,
    same_plan: Q,
    agree: A,
) -> bool {
    &&& plan_shared(same_plan, launch.operation, words)
    &&& launch.preflight is Ok
    &&& goes_on(agree)
}

/// An execution with overlap starts on all processes: the plans are the same, the arguments are in
/// order, all exchanges allow overlap, and the processes go on.
pub open spec fn ready_overlapped<E, Q: Fn(u64, &Vec<u64>) -> Result<(), FftError>, A: Fn(bool) -> bool>(
    launch: OverlapLaunch<E>,
    words: Vec<u64>,
    same_plan: Q,
    agree: A,
) -> bool {
    &&& plan_shared(same_plan, launch.operation, words)
    &&& launch.transport
    &&& launch.preflight is Ok
    &&& launch.supported
    &&& goes_on(agree)
}

/// No step of a list fails in a state that is sound in front of it, and each leaves one that is sound
/// behind it. `sound` tells of a state how many steps are behind it.
pub open spec fn steps_hold<D, E, C: Crew<D, E>>(
    crew: C,
    steps: Seq<Step>,
    sound: spec_fn(int, D) -> bool,
) -> bool {
    forall|i: int, from: D, to: D, local: Result<(), E>|
        0 <= i < steps.len() && #[trigger] crew.does(steps[i], from, to, local) && sound(i, from)
            ==> local is Ok && sound(i + 1, to)
}

/// No piece of a list of steps fails in a state that is sound in front of it, and each leaves one
/// that is sound behind it.
pub open spec fn pieces_hold<D, E: Failure, P: Pieces<D, E>>(
    perform: P,
    steps: Seq<Step>,
    sound: spec_fn(int, D) -> bool,
) -> bool {
    forall|start: int, end: int, from: D, to: D, local: Result<(), E>| #[trigger]
        perform.done(steps.subrange(start, end), from, to, local) && is_piece(steps, start, end)
            && sound(start, from) ==> local is Ok && sound(end, to)
}

proof fn lemma_steps_sound<D, E, C: Crew<D, E>>(
    crew: C,
    steps: Seq<Step>,
    start: int,
    end: int,
    before: D,
    after: D,
    sound: spec_fn(int, D) -> bool,
)
    requires
        steps_hold::<D, E, C>(crew, steps, sound),
        0 <= start <= end <= steps.len(),
        all_done::<D, E, C>(crew, steps.subrange(start, end), before, after),
        sound(start, before),
    ensures
        sound(end, after),
    decreases end - start,
{
    let some = steps.subrange(start, end);
    if start < end {
        let between = choose|between: D|
            all_done::<D, E, C>(crew, some.drop_last(), before, between) && #[trigger] crew.does(
                some.last(),
                between,
                after,
                Ok(()),
            );
        assert(some.drop_last() =~= steps.subrange(start, end - 1));
        lemma_steps_sound::<D, E, C>(crew, steps, start, end - 1, before, between, sound);
        assert(crew.does(steps[end - 1], between, after, Ok(())));
        assert(sound(end - 1 + 1, after));
    }
}

/// Steps that do not fail, done in turn, succeed.
pub proof fn lemma_turn_holds<D, E, C: Crew<D, E>>(
    crew: C,
    steps: Seq<Step>,
    start: int,
    end: int,
    from: D,
    to: D,
    local: Result<(), E>,
    sound: spec_fn(int, D) -> bool,
)
    requires
        steps_hold::<D, E, C>(crew, steps, sound),
        0 <= start <= end <= steps.len(),
        in_turn::<D, E, C>(crew, steps.subrange(start, end), from, to, local),
        sound(start, from),
    ensures
        local is Ok,
        sound(end, to),
{
    let piece = steps.subrange(start, end);
    match local {
        Ok(_) => {
            lemma_steps_sound::<D, E, C>(crew, steps, start, end, from, to, sound);
        },
        Err(error) => {
            let (at, between) = choose|at: int, between: D|
                {
                    &&& 0 <= at < piece.len()
                    &&& all_done::<D, E, C>(crew, piece.take(at), from, between)
                    &&& #[trigger] crew.does(piece[at], between, to, Err(error))
                };
            assert(piece.take(at) =~= steps.subrange(start, start + at));
            lemma_steps_sound::<D, E, C>(crew, steps, start, start + at, from, between, sound);
            assert(crew.does(steps[start + at], between, to, Err(error)));
        },
    }
}

/// Where no step fails, no piece does.
proof fn lemma_pieces_hold<D, E: Failure, C: Crew<D, E>>(
    crew: C,
    steps: Seq<Step>,
    sound: spec_fn(int, D) -> bool,
)
    requires
        steps_hold::<D, E, C>(crew, steps, sound),
    ensures
        pieces_hold::<D, E, InTurn<C>>(InTurn { crew: &crew }, steps, sound),
{
    let pieces = InTurn { crew: &crew };
    assert forall|start: int, end: int, from: D, to: D, local: Result<(), E>| #[trigger]
        pieces.done(steps.subrange(start, end), from, to, local) && is_piece(steps, start, end)
            && sound(start, from) implies local is Ok && sound(end, to) by {
        lemma_turn_holds::<D, E, C>(crew, steps, start, end, from, to, local, sound);
    }
}

proof fn lemma_sound_so_far<D, E: Failure, P: Pieces<D, E>, A: Fn(bool) -> bool>(
    perform: P,
    agree: A,
    steps: Seq<Step>,
    end: int,
    before: D,
    after: D,
    sound: spec_fn(int, D) -> bool,
)
    requires
        pieces_hold::<D, E, P>(perform, steps, sound),
        pieces_done(perform, agree, steps, end, before, after),
        0 <= end,
        sound(0, before),
    ensures
        sound(end, after),
    decreases end,
{
    if end > 0 {
        let (start, between) = choose|start: int, between: D|
            {
                &&& 0 <= start < end
                &&& is_piece(steps, start, end)
                &&& pieces_done(perform, agree, steps, start, before, between)
                &&& #[trigger] piece_done(
                    perform,
                    agree,
                    steps.subrange(start, end),
                    between,
                    after,
                    Ok(()),
                )
            };
        lemma_sound_so_far::<D, E, P, A>(perform, agree, steps, start, before, between, sound);
        let local = choose|local: Result<(), E>| #[trigger]
            perform.done(steps.subrange(start, end), between, after, local);
        assert(perform.done(steps.subrange(start, end), between, after, local));
    }
}

/// A run of which no piece fails succeeds, where the processes go on.
proof fn lemma_run_succeeds<D, E: Failure, P: Pieces<D, E>, A: Fn(bool) -> bool>(
    perform: P,
    agree: A,
    steps: Seq<Step>,
    before: D,
    after: D,
    outcome: Result<(), E>,
    sound: spec_fn(int, D) -> bool,
)
    requires
        pieces_hold::<D, E, P>(perform, steps, sound),
        goes_on(agree),
        steps_run(perform, agree, steps, before, after, outcome),
        sound(0, before),
    ensures
        outcome is Ok,
        sound(steps.len() as int, after),
{
    match outcome {
        Ok(_) => {
            lemma_sound_so_far::<D, E, P, A>(
                perform,
                agree,
                steps,
                steps.len() as int,
                before,
                after,
                sound,
            );
        },
        Err(error) => {
            let (start, end, between) = choose|start: int, end: int, between: D|
                {
                    &&& is_piece(steps, start, end)
                    &&& pieces_done(perform, agree, steps, start, before, between)
                    &&& #[trigger] piece_done(
                        perform,
                        agree,
                        steps.subrange(start, end),
                        between,
                        after,
                        Err(error),
                    )
                };
            lemma_sound_so_far::<D, E, P, A>(perform, agree, steps, start, before, between, sound);
        },
    }
}

/// An execution out of place succeeds where the plans are the same, the arguments are in order, the
/// processes go on, and none of its steps fails.
pub proof fn law_execution_succeeds<D, E: Failure, Q: Fn(u64, &Vec<u64>) -> Result<(), FftError>, C: Crew<D, E>, A: Fn(bool) -> bool>(
    launch: Launch<E>,
    words: Vec<u64>,
    same_plan: Q,
    agree: A,
    crew: C,
    before: D,
    after: D,
    outcome: Result<(), E>,
    sound: spec_fn(int, D) -> bool,
)
    requires
        executed(
            launch,
            words,
            same_plan,
            agree,
            InTurn { crew: &crew },
            before,
            after,
            outcome,
        ),
        plan_shared(same_plan, launch.operation, words),
        launch.preflight is Ok,
        goes_on(agree),
        steps_hold::<D, E, C>(crew, launch.steps@, sound),
        sound(0, before),
    ensures
        outcome is Ok,
        sound(launch.steps@.len() as int, after),
{
    lemma_pieces_hold::<D, E, C>(crew, launch.steps@, sound);
    if steps_run(InTurn { crew: &crew }, agree, launch.steps@, before, after, outcome) {
        lemma_run_succeeds::<D, E, InTurn<C>, A>(
            InTurn { crew: &crew },
            agree,
            launch.steps@,
            before,
            after,
            outcome,
            sound,
        );
    }
}

/// An execution in place succeeds where the plans are the same, the arguments are in order, the
/// processes go on, and none of its steps fails.
pub proof fn law_execution_in_place_succeeds<X: Transacted, W, E: Failure, Q: Fn(u64, &Vec<u64>) -> Result<(), FftError>, C: Crew<(X, W), E>, A: Fn(bool) -> bool>(
    launch: Launch<E>,
    words: Vec<u64>,
    same_plan: Q,
    agree: A,
    crew: C,
    before: (X, W),
    after: (X, W),
    outcome: Result<(), E>,
    sound: spec_fn(int, (X, W)) -> bool,
)
    requires
        executed_in_place(
            launch,
            words,
            same_plan,
            agree,
            InTurn { crew: &crew },
            before,
            after,
            outcome,
        ),
        plan_shared(same_plan, launch.operation, words),
        launch.preflight is Ok,
        goes_on(agree),
        steps_hold::<(X, W), E, C>(crew, launch.steps@, sound),
        sound(0, (before.0.interrupted(), before.1)),
    ensures
        outcome is Ok,
{
    lemma_pieces_hold::<(X, W), E, C>(crew, launch.steps@, sound);
    let begun = (before.0.interrupted(), before.1);
    if !(admission(launch, words, same_plan, agree, outcome) && outcome is Err) {
        let left = choose|left: (X, W)| #[trigger]
            steps_run(InTurn { crew: &crew }, agree, launch.steps@, begun, left, outcome);
        lemma_run_succeeds::<(X, W), E, InTurn<C>, A>(
            InTurn { crew: &crew },
            agree,
            launch.steps@,
            begun,
            left,
            outcome,
            sound,
        );
    }
}

/// An execution with overlap succeeds where the plans are the same, the arguments are in order, all
/// exchanges allow overlap, the processes go on, and none of its pieces fails.
pub proof fn law_overlapped_execution_succeeds<D, E: Failure, Q: Fn(u64, &Vec<u64>) -> Result<(), FftError>, P: Pieces<D, FftOverlapError<E>>, A: Fn(bool) -> bool>(
    launch: OverlapLaunch<E>,
    words: Vec<u64>,
    same_plan: Q,
    agree: A,
    perform: P,
    before: D,
    after: D,
    outcome: Result<(), FftOverlapError<E>>,
    sound: spec_fn(int, D) -> bool,
)
    requires
        executed_overlapped(launch, words, same_plan, agree, perform, before, after, outcome),
        plan_shared(same_plan, launch.operation, words),
        launch.transport,
        launch.preflight is Ok,
        launch.supported,
        goes_on(agree),
        pieces_hold::<D, FftOverlapError<E>, P>(perform, launch.steps@, sound),
        sound(0, before),
    ensures
        outcome is Ok,
        sound(launch.steps@.len() as int, after),
{
    if overlap_admission(launch, words, same_plan, agree, Ok(())) && steps_run(
        perform,
        agree,
        launch.steps@,
        before,
        after,
        outcome,
    ) {
        lemma_run_succeeds::<D, FftOverlapError<E>, P, A>(
            perform,
            agree,
            launch.steps@,
            before,
            after,
            outcome,
            sound,
        );
    }
}

} // verus!
