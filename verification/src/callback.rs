//! What work that fails inside an exchange leaves on each process, and what comes after it.

use vstd::prelude::*;

use crate::carrier::Load;
use crate::crew::Crew;
use crate::crew::OverlapCrew;
use crate::crew::Overlapped;
use crate::crew::Pieces;
use crate::crew::all_done;
use crate::crew::enclosed_done;
use crate::crew::enclosed_outcome;
use crate::crew::enclosing_exchange;
use crate::crew::in_turn;
use crate::crew::open_outcome;
use crate::crew_mixed_r2c::MixedR2cReverseOverlapCrew;
use crate::crew_mixed_r2c::MixedR2cReverseTask;
use crate::crew_r2c::R2cReverseOverlapCrew;
use crate::crew_r2c::R2cReverseTask;
use crate::crew_r2c::half_split_done;
use crate::crew_r2c::overwritten_inside;
use crate::error::Failure;
use crate::error::FftError;
use crate::error::FftOverlapError;
use crate::error::LocalC2cError;
use crate::error::LocalR2cError;
use crate::error::MixedError;
use crate::error::OverlapError;
use crate::error::R2cError;
use crate::inspect::Inspector;
use crate::layout::Direction;
use crate::r2c::R2cWorkspace;
use crate::run::OverlapLaunch;
use crate::run::executed_overlapped;
use crate::run::law_kept_by_pieces;
use crate::scalar::Complex;
use crate::scalar::FftReal;
use crate::schedule::Slot;
use crate::schedule::Step;
use crate::stages::LocalError;
use crate::transition::Passage;

verus! {

/// How far a process came whose own work failed inside exchange `index`: the values came in, the work
/// on them failed, and the others were told so.
pub open spec fn failed_inside<D, E, C: OverlapCrew<D, E>>(
    crew: C,
    index: usize,
    rest: Seq<Step>,
    before: D,
    after: D,
    error: E,
) -> bool {
    exists|landed: D, worked: D, answer: Result<(), OverlapError<E>>|
        {
            &&& crew.lands(index, before, landed, Ok(()))
            &&& #[trigger] in_turn::<D, E, C>(crew, rest, landed, worked, Err(error))
            &&& #[trigger] crew.settles(index, false, worked, after, answer)
        }
}

/// How far a process came on whose side the work inside exchange `index` was done, while another told
/// that its own had failed.
pub open spec fn let_down_inside<D, E, C: OverlapCrew<D, E>>(
    crew: C,
    index: usize,
    rest: Seq<Step>,
    before: D,
    after: D,
) -> bool {
    exists|landed: D, worked: D|
        {
            &&& crew.lands(index, before, landed, Ok(()))
            &&& #[trigger] in_turn::<D, E, C>(crew, rest, landed, worked, Ok(()))
            &&& #[trigger] crew.settles(
                index,
                true,
                worked,
                after,
                Err(OverlapError::PeerCallbackFailed),
            )
        }
}

/// A piece inside exchange `index` that fails does so for one of three reasons: the exchange failed
/// before the work began, the own work failed, or the exchange failed once the work was done. Its own
/// error comes first: it is reported whatever the others answer.
pub proof fn law_piece_failure_told<D, E, C: OverlapCrew<D, E>>(
    crew: C,
    index: usize,
    piece: Seq<Step>,
    before: D,
    after: D,
    failure: FftOverlapError<E>,
)
    requires
        enclosing_exchange::<D, E, C>(crew, piece) == Some(index),
        Pieces::<D, FftOverlapError<E>>::done(
            &(Overlapped { crew: &crew }),
            piece,
            before,
            after,
            Err(failure),
        ),
        forall|from: D, to: D| !#[trigger]
            crew.lands(index, from, to, Err(OverlapError::PeerCallbackFailed)),
        forall|from: D, to: D, error: E| !#[trigger]
            crew.lands(index, from, to, Err(OverlapError::Callback(error))),
        forall|from: D, to: D, error: E| !#[trigger]
            crew.settles(index, true, from, to, Err(OverlapError::Callback(error))),
    ensures
        failure is Overlap,
        failure->Overlap_0 is Callback ==> failed_inside::<D, E, C>(
            crew,
            index,
            piece.skip(1),
            before,
            after,
            failure->Overlap_0->Callback_0,
        ),
        failure->Overlap_0 is PeerCallbackFailed ==> let_down_inside::<D, E, C>(
            crew,
            index,
            piece.skip(1),
            before,
            after,
        ),
{
    let (landed, landing) = choose|landed: D, landing: Result<(), OverlapError<E>>| #[trigger]
        crew.lands(index, before, landed, landing) && match landing {
            Err(error) => after == landed && Err::<(), FftOverlapError<E>>(failure) == Err::<
                (),
                FftOverlapError<E>,
            >(FftOverlapError::Overlap(error)),
            Ok(_) => enclosed_done::<D, E, C>(
                crew,
                index,
                piece.skip(1),
                landed,
                after,
                Err(failure),
            ),
        };
    match landing {
        Err(_) => {},
        Ok(done) => {
            assert(landing == Ok::<(), OverlapError<E>>(()));
            let (worked, local, answer) = choose|
                worked: D,
                local: Result<(), E>,
                answer: Result<(), OverlapError<E>>,
            |
                {
                    &&& #[trigger] in_turn::<D, E, C>(crew, piece.skip(1), landed, worked, local)
                    &&& #[trigger] crew.settles(index, local is Ok, worked, after, answer)
                    &&& Err::<(), FftOverlapError<E>>(failure) == enclosed_outcome(local, answer)
                };
            match local {
                Ok(done) => {
                    assert(local == Ok::<(), E>(()));
                },
                Err(error) => {
                    assert(crew.settles(index, false, worked, after, answer));
                },
            }
        },
    }
}

/// What the processes answer each other behind the work inside an exchange: whose own work was done
/// is told that another's failed, if one did.
pub open spec fn answered<E>(
    locals: Seq<Result<(), E>>,
    answers: Seq<Result<(), OverlapError<E>>>,
) -> bool {
    &&& answers.len() == locals.len()
    &&& forall|i: int|
        0 <= i < locals.len() && (#[trigger] locals[i]) is Ok ==> answers[i] == if all_worked(
            locals,
        ) {
            Ok::<(), OverlapError<E>>(())
        } else {
            Err(OverlapError::PeerCallbackFailed)
        }
}

/// The work was done on every process.
pub open spec fn all_worked<E>(locals: Seq<Result<(), E>>) -> bool {
    forall|i: int| 0 <= i < locals.len() ==> (#[trigger] locals[i]) is Ok
}

/// Work that fails inside an exchange on some process is reported on each: with its own error where
/// it failed, and as another's failure where it was done. Where it was done on all, all go on.
pub proof fn law_failure_told_on_each_process<E>(
    locals: Seq<Result<(), E>>,
    answers: Seq<Result<(), OverlapError<E>>>,
    process: int,
)
    requires
        answered(locals, answers),
        0 <= process < locals.len(),
    ensures
        all_worked(locals) ==> enclosed_outcome(locals[process], answers[process]) is Ok,
        !all_worked(locals) ==> enclosed_outcome(locals[process], answers[process]) == match locals[process] {
            Err(error) => Err::<(), FftOverlapError<E>>(
                FftOverlapError::Overlap(OverlapError::Callback(error)),
            ),
            Ok(_) => Err(FftOverlapError::Overlap(OverlapError::PeerCallbackFailed)),
        },
{
}

/// A crew whose steps and parts of exchanges keep something keeps it in every piece with overlap.
proof fn lemma_piece_keeps<D, E, C: OverlapCrew<D, E>>(
    crew: C,
    piece: Seq<Step>,
    before: D,
    after: D,
    outcome: Result<(), FftOverlapError<E>>,
    kept: spec_fn(D) -> bool,
)
    requires
        steps_keep::<D, E, C>(crew, kept),
        kept(before),
        Pieces::<D, FftOverlapError<E>>::done(
            &(Overlapped { crew: &crew }),
            piece,
            before,
            after,
            outcome,
        ),
    ensures
        kept(after),
{
    match enclosing_exchange::<D, E, C>(crew, piece) {
        None => {
            let local = choose|local: Result<(), E>| #[trigger]
                in_turn::<D, E, C>(crew, piece, before, after, local) && outcome == open_outcome(
                    local,
                );
            lemma_turn_keeps::<D, E, C>(crew, piece, before, after, local, kept);
        },
        Some(index) => {
            let (landed, landing) = choose|landed: D, landing: Result<(), OverlapError<E>>|
                #[trigger]
                crew.lands(index, before, landed, landing) && match landing {
                    Err(error) => after == landed && outcome == Err::<(), FftOverlapError<E>>(
                        FftOverlapError::Overlap(error),
                    ),
                    Ok(_) => enclosed_done::<D, E, C>(
                        crew,
                        index,
                        piece.skip(1),
                        landed,
                        after,
                        outcome,
                    ),
                };
            if landing is Ok {
                let (worked, local, answer) = choose|
                    worked: D,
                    local: Result<(), E>,
                    answer: Result<(), OverlapError<E>>,
                |
                    {
                        &&& #[trigger] in_turn::<D, E, C>(
                            crew,
                            piece.skip(1),
                            landed,
                            worked,
                            local,
                        )
                        &&& #[trigger] crew.settles(index, local is Ok, worked, after, answer)
                        &&& outcome == enclosed_outcome(local, answer)
                    };
                lemma_turn_keeps::<D, E, C>(crew, piece.skip(1), landed, worked, local, kept);
            }
        },
    }
}

/// The steps of a crew and the parts of its exchanges keep something, whether they succeed or not.
pub open spec fn steps_keep<D, E, C: OverlapCrew<D, E>>(crew: C, kept: spec_fn(D) -> bool) -> bool {
    &&& forall|step: Step, from: D, to: D, outcome: Result<(), E>| #[trigger]
        crew.does(step, from, to, outcome) && kept(from) ==> kept(to)
    &&& forall|index: usize, from: D, to: D, outcome: Result<(), OverlapError<E>>| #[trigger]
        crew.lands(index, from, to, outcome) && kept(from) ==> kept(to)
    &&& forall|index: usize, valid: bool, from: D, to: D, outcome: Result<(), OverlapError<E>>|
        #[trigger]
        crew.settles(index, valid, from, to, outcome) && kept(from) ==> kept(to)
}

proof fn lemma_all_keep<D, E, C: OverlapCrew<D, E>>(
    crew: C,
    steps: Seq<Step>,
    before: D,
    after: D,
    kept: spec_fn(D) -> bool,
)
    requires
        steps_keep::<D, E, C>(crew, kept),
        kept(before),
        all_done::<D, E, C>(crew, steps, before, after),
    ensures
        kept(after),
    decreases steps.len(),
{
    if steps.len() > 0 {
        let between = choose|between: D|
            all_done::<D, E, C>(crew, steps.drop_last(), before, between) && #[trigger] crew.does(
                steps.last(),
                between,
                after,
                Ok(()),
            );
        lemma_all_keep::<D, E, C>(crew, steps.drop_last(), before, between, kept);
    }
}

proof fn lemma_turn_keeps<D, E, C: OverlapCrew<D, E>>(
    crew: C,
    steps: Seq<Step>,
    before: D,
    after: D,
    outcome: Result<(), E>,
    kept: spec_fn(D) -> bool,
)
    requires
        steps_keep::<D, E, C>(crew, kept),
        kept(before),
        in_turn::<D, E, C>(crew, steps, before, after, outcome),
    ensures
        kept(after),
{
    match outcome {
        Ok(_) => {
            lemma_all_keep::<D, E, C>(crew, steps, before, after, kept);
        },
        Err(error) => {
            let (at, between) = choose|at: int, between: D|
                {
                    &&& 0 <= at < steps.len()
                    &&& all_done::<D, E, C>(crew, steps.take(at), before, between)
                    &&& #[trigger] crew.does(steps[at], between, after, Err(error))
                };
            lemma_all_keep::<D, E, C>(crew, steps.take(at), before, between, kept);
        },
    }
}

/// An execution with overlap keeps what its steps and the parts of its exchanges keep, whether it
/// succeeds or not.
pub proof fn law_overlap_keeps<D, E: Failure, Q: Fn(u64, &Vec<u64>) -> Result<(), FftError>, C: OverlapCrew<D, E>, A: Fn(bool) -> bool>(
    launch: OverlapLaunch<E>,
    words: Vec<u64>,
    same_plan: Q,
    agree: A,
    crew: C,
    before: D,
    after: D,
    outcome: Result<(), FftOverlapError<E>>,
    kept: spec_fn(D) -> bool,
)
    requires
        executed_overlapped(
            launch,
            words,
            same_plan,
            agree,
            Overlapped { crew: &crew },
            before,
            after,
            outcome,
        ),
        steps_keep::<D, E, C>(crew, kept),
        kept(before),
    ensures
        kept(after),
{
    let pieces = Overlapped { crew: &crew };
    assert forall|piece: Seq<Step>, from: D, to: D, local: Result<(), FftOverlapError<E>>| #[trigger]
        Pieces::<D, FftOverlapError<E>>::done(&pieces, piece, from, to, local) && kept(
            from,
        ) implies kept(to) by {
        lemma_piece_keeps::<D, E, C>(crew, piece, from, to, local, kept);
    }
    if after != before {
        law_kept_by_pieces::<D, FftOverlapError<E>, Overlapped<C>, A>(
            pieces,
            agree,
            launch.steps@,
            before,
            after,
            outcome,
            kept,
        );
    }
}

/// A part of an exchange of a real-to-complex plan that fails, or behind which the own work has
/// failed, leaves the array that the boundary writes inside that exchange so that it can no longer
/// be read.
pub proof fn law_r2c_failed_part_poisons<R: FftReal, A, YR: Fn(usize, Direction, Option<bool>, Load<R, N, M>) -> (Load<R, N, M>, Result<(), OverlapError<R2cError>>), YC: Fn(usize, Direction, Option<bool>, Load<Complex<R>, N, M>) -> (Load<Complex<R>, N, M>, Result<(), OverlapError<R2cError>>), const N: usize, const M: usize>(
    boundary: usize,
    forward: bool,
    splits: (YR, YC),
    direction: Direction,
    index: usize,
    valid: Option<bool>,
    before: (A, R2cWorkspace<R, N, M>),
    after: (A, R2cWorkspace<R, N, M>),
    outcome: Result<(), OverlapError<R2cError>>,
)
    requires
        half_split_done::<R, A, YR, YC, N, M>(
            boundary,
            forward,
            splits,
            direction,
            index,
            valid,
            before,
            after,
            outcome,
        ),
        outcome is Err || valid == Some(false),
    ensures
        after.0 == before.0,
        overwritten_inside(boundary, forward, index) == Slot::Complex ==> after.1.intermediate.active
            is None,
        overwritten_inside(boundary, forward, index) == Slot::Real ==> (
        after.1.real_intermediate matches Some(array) ==> array.active is None),
{
}

/// A reverse execution of a real-to-complex plan with overlap, whether it succeeds or not, leaves a
/// destination that the next one can be given: as long as it was, in the same layout. The source is
/// not written.
pub proof fn law_r2c_destination_reusable<R: FftReal, FX: Fn(&[Complex<R>], usize) -> Result<Vec<R>, LocalR2cError>, FC: Fn(&[Complex<R>], usize) -> Result<Vec<Complex<R>>, LocalC2cError>, XR: Fn(usize, Passage, Load<R, N, M>) -> (Load<R, N, M>, Result<(), FftError>), XC: Fn(usize, Passage, Load<Complex<R>, N, M>) -> (Load<Complex<R>, N, M>, Result<(), FftError>), V: Inspector<R, R2cError, N, M>, YR: Fn(usize, Direction, Option<bool>, Load<R, N, M>) -> (Load<R, N, M>, Result<(), OverlapError<R2cError>>), YC: Fn(usize, Direction, Option<bool>, Load<Complex<R>, N, M>) -> (Load<Complex<R>, N, M>, Result<(), OverlapError<R2cError>>), Q: Fn(u64, &Vec<u64>) -> Result<(), FftError>, A: Fn(bool) -> bool, const N: usize, const M: usize>(
    crew: R2cReverseOverlapCrew<R, FX, FC, XR, XC, V, YR, YC, N, M>,
    launch: OverlapLaunch<R2cError>,
    same_plan: Q,
    agree: A,
    before: R2cReverseTask<R, N, M>,
    after: R2cReverseTask<R, N, M>,
    outcome: Result<(), FftOverlapError<R2cError>>,
)
    requires
        executed_overlapped(
            launch,
            crew.crew.core.descriptor,
            same_plan,
            agree,
            Overlapped { crew: &crew },
            before,
            after,
            outcome,
        ),
    ensures
        after.0.data@.len() == before.0.data@.len(),
        after.0.pencil == before.0.pencil,
        after.0.extra_shape == before.0.extra_shape,
{
    let kept = |state: R2cReverseTask<R, N, M>|
        {
            &&& state.0.data@.len() == before.0.data@.len()
            &&& state.0.pencil == before.0.pencil
            &&& state.0.extra_shape == before.0.extra_shape
        };
    assert forall|step: Step, from: R2cReverseTask<R, N, M>, to: R2cReverseTask<R, N, M>, local: Result<(), R2cError>| #[trigger]
        crew.does(step, from, to, local) && kept(from) implies kept(to) by {
        assert(crew.crew.does(step, from, to, local));
    }
    law_overlap_keeps::<R2cReverseTask<R, N, M>, R2cError, Q, R2cReverseOverlapCrew<R, FX, FC, XR, XC, V, YR, YC, N, M>, A>(
        launch,
        crew.crew.core.descriptor,
        same_plan,
        agree,
        crew,
        before,
        after,
        outcome,
        kept,
    );
}

/// A reverse execution of a mixed real-to-complex plan with overlap, whether it succeeds or not,
/// leaves a destination that the next one can be given: as long as it was, in the same layout. The
/// source is not written.
pub proof fn law_mixed_r2c_destination_reusable<R: FftReal, FR: Fn(&[R], usize) -> Result<Vec<R>, LocalError>, FX: Fn(&[Complex<R>], usize) -> Result<Vec<R>, LocalError>, FC: Fn(&[Complex<R>], usize) -> Result<Vec<Complex<R>>, LocalError>, XR: Fn(usize, Passage, Load<R, N, M>) -> (Load<R, N, M>, Result<(), FftError>), XC: Fn(usize, Passage, Load<Complex<R>, N, M>) -> (Load<Complex<R>, N, M>, Result<(), FftError>), V: Inspector<R, MixedError, N, M>, YR: Fn(usize, Direction, Option<bool>, Load<R, N, M>) -> (Load<R, N, M>, Result<(), OverlapError<MixedError>>), YC: Fn(usize, Direction, Option<bool>, Load<Complex<R>, N, M>) -> (Load<Complex<R>, N, M>, Result<(), OverlapError<MixedError>>), Q: Fn(u64, &Vec<u64>) -> Result<(), FftError>, A: Fn(bool) -> bool, const N: usize, const M: usize>(
    crew: MixedR2cReverseOverlapCrew<R, FR, FX, FC, XR, XC, V, YR, YC, N, M>,
    launch: OverlapLaunch<MixedError>,
    same_plan: Q,
    agree: A,
    before: MixedR2cReverseTask<R, N, M>,
    after: MixedR2cReverseTask<R, N, M>,
    outcome: Result<(), FftOverlapError<MixedError>>,
)
    requires
        executed_overlapped(
            launch,
            crew.crew.core.descriptor,
            same_plan,
            agree,
            Overlapped { crew: &crew },
            before,
            after,
            outcome,
        ),
    ensures
        after.0.data@.len() == before.0.data@.len(),
        after.0.pencil == before.0.pencil,
        after.0.extra_shape == before.0.extra_shape,
{
    let kept = |state: MixedR2cReverseTask<R, N, M>|
        {
            &&& state.0.data@.len() == before.0.data@.len()
            &&& state.0.pencil == before.0.pencil
            &&& state.0.extra_shape == before.0.extra_shape
        };
    assert forall|step: Step, from: MixedR2cReverseTask<R, N, M>, to: MixedR2cReverseTask<R, N, M>, local: Result<(), MixedError>| #[trigger]
        crew.does(step, from, to, local) && kept(from) implies kept(to) by {
        assert(crew.crew.does(step, from, to, local));
    }
    law_overlap_keeps::<MixedR2cReverseTask<R, N, M>, MixedError, Q, MixedR2cReverseOverlapCrew<R, FR, FX, FC, XR, XC, V, YR, YC, N, M>, A>(
        launch,
        crew.crew.core.descriptor,
        same_plan,
        agree,
        crew,
        before,
        after,
        outcome,
        kept,
    );
}

} // verus!
