//! What a refused spectrum leaves behind.

use vstd::prelude::*;

use crate::carrier::Load;
use crate::crew::all_done;
use crate::crew::enclosed_done;
use crate::crew::enclosed_outcome;
use crate::crew::enclosing_exchange;
use crate::crew::in_turn;
use crate::crew::open_outcome;
use crate::crew::Crew;
use crate::crew::InTurn;
use crate::crew::OverlapCrew;
use crate::crew::Overlapped;
use crate::crew::Pieces;
use crate::crew_mixed_r2c::MixedR2cReverseCrew;
use crate::crew_mixed_r2c::MixedR2cReverseOverlapCrew;
use crate::crew_mixed_r2c::MixedR2cReverseTask;
use crate::crew_r2c::R2cReverseCrew;
use crate::crew_r2c::R2cReverseOverlapCrew;
use crate::crew_r2c::R2cReverseTask;
use crate::error::Failure;
use crate::error::FftError;
use crate::error::FftOverlapError;
use crate::error::LocalC2cError;
use crate::error::LocalR2cError;
use crate::error::MixedError;
use crate::error::OverlapError;
use crate::error::R2cError;
use crate::inspect::Inspector;
use crate::journey::before_check;
use crate::journey::behind_check;
use crate::journey::checked_at;
use crate::layout::Direction;
use crate::run::executed;
use crate::run::executed_overlapped;
use crate::run::is_piece;
use crate::run::piece_done;
use crate::run::pieces_done;
use crate::run::steps_run;
use crate::run::Launch;
use crate::run::OverlapLaunch;
use crate::scalar::Complex;
use crate::scalar::FftReal;
use crate::schedule::Mode;
use crate::schedule::Step;
use crate::stages::LocalError;
use crate::transition::Passage;

verus! {

/// The first `until` steps of a list keep what `seen` tells of a state.
pub open spec fn kept_until<D, E, C: Crew<D, E>, V>(
    crew: C,
    steps: Seq<Step>,
    until: int,
    seen: spec_fn(D) -> V,
) -> bool {
    forall|i: int, from: D, to: D, outcome: Result<(), E>|
        0 <= i < until && i < steps.len() && #[trigger] crew.does(steps[i], from, to, outcome)
            ==> seen(to) == seen(from)
}

/// No step of a list from `until` on fails with `error`.
pub open spec fn spared_from<D, E, C: Crew<D, E>>(
    crew: C,
    steps: Seq<Step>,
    until: int,
    error: E,
) -> bool {
    forall|i: int, from: D, to: D|
        until <= i < steps.len() ==> !#[trigger] crew.does(steps[i], from, to, Err(error))
}

proof fn lemma_seen_so_far<D, E, C: Crew<D, E>, V>(
    crew: C,
    steps: Seq<Step>,
    until: int,
    seen: spec_fn(D) -> V,
    start: int,
    end: int,
    before: D,
    after: D,
)
    requires
        kept_until::<D, E, C, V>(crew, steps, until, seen),
        0 <= start <= end <= steps.len(),
        end <= until,
        all_done::<D, E, C>(crew, steps.subrange(start, end), before, after),
    ensures
        seen(after) == seen(before),
    decreases end - start,
{
    let some = steps.subrange(start, end);
    if start < end {
        let between = choose|between: D|
            all_done::<D, E, C>(crew, some.drop_last(), before, between) && #[trigger] crew.does(
                some.last(),
                between,
                after,
                Ok(()),
            );
        assert(some.drop_last() =~= steps.subrange(start, end - 1));
        lemma_seen_so_far::<D, E, C, V>(crew, steps, until, seen, start, end - 1, before, between);
        assert(crew.does(steps[end - 1], between, after, Ok(())));
    }
}

/// Steps that end with `error` ended in front of step `until`, and what `seen` tells was kept.
proof fn lemma_ended_early<D, E, C: Crew<D, E>, V>(
    crew: C,
    steps: Seq<Step>,
    until: int,
    seen: spec_fn(D) -> V,
    error: E,
    start: int,
    end: int,
    before: D,
    after: D,
)
    requires
        kept_until::<D, E, C, V>(crew, steps, until, seen),
        spared_from::<D, E, C>(crew, steps, until, error),
        0 <= start <= end <= steps.len(),
        in_turn::<D, E, C>(crew, steps.subrange(start, end), before, after, Err(error)),
    ensures
        seen(after) == seen(before),
        start < until,
{
    let piece = steps.subrange(start, end);
    let (at, between) = choose|at: int, between: D|
        {
            &&& 0 <= at < piece.len()
            &&& all_done::<D, E, C>(crew, piece.take(at), before, between)
            &&& #[trigger] crew.does(piece[at], between, after, Err(error))
        };
    assert(piece.take(at) =~= steps.subrange(start, start + at));
    assert(crew.does(steps[start + at], between, after, Err(error)));
    assert(start + at < until);
    lemma_seen_so_far::<D, E, C, V>(crew, steps, until, seen, start, start + at, before, between);
}

proof fn lemma_pieces_seen<D, E: Failure, C: Crew<D, E>, A: Fn(bool) -> bool, V>(
    crew: C,
    agree: A,
    steps: Seq<Step>,
    until: int,
    seen: spec_fn(D) -> V,
    end: int,
    before: D,
    after: D,
)
    requires
        kept_until::<D, E, C, V>(crew, steps, until, seen),
        0 <= end <= steps.len(),
        end <= until,
        pieces_done(InTurn { crew: &crew }, agree, steps, end, before, after),
    ensures
        seen(after) == seen(before),
    decreases end,
{
    let pieces = InTurn { crew: &crew };
    if end > 0 {
        let (start, between) = choose|start: int, between: D|
            {
                &&& 0 <= start < end
                &&& is_piece(steps, start, end)
                &&& pieces_done(pieces, agree, steps, start, before, between)
                &&& #[trigger] piece_done(
                    pieces,
                    agree,
                    steps.subrange(start, end),
                    between,
                    after,
                    Ok::<(), E>(()),
                )
            };
        lemma_pieces_seen::<D, E, C, A, V>(crew, agree, steps, until, seen, start, before, between);
        let piece = steps.subrange(start, end);
        assert(in_turn::<D, E, C>(crew, piece, between, after, Ok(())));
        lemma_seen_so_far::<D, E, C, V>(crew, steps, until, seen, start, end, between, after);
    }
}

/// A run that ends with an error that only steps in front of `until` give keeps what these keep.
proof fn lemma_refused_run<D, E: Failure, C: Crew<D, E>, A: Fn(bool) -> bool, V>(
    crew: C,
    agree: A,
    steps: Seq<Step>,
    until: int,
    seen: spec_fn(D) -> V,
    error: E,
    before: D,
    after: D,
)
    requires
        kept_until::<D, E, C, V>(crew, steps, until, seen),
        spared_from::<D, E, C>(crew, steps, until, error),
        error != E::spec_of_fft(FftError::CollectivePreconditionFailed),
        steps_run(InTurn { crew: &crew }, agree, steps, before, after, Err(error)),
    ensures
        seen(after) == seen(before),
{
    let pieces = InTurn { crew: &crew };
    let (start, end, between) = choose|start: int, end: int, between: D|
        {
            &&& is_piece(steps, start, end)
            &&& pieces_done(pieces, agree, steps, start, before, between)
            &&& #[trigger] piece_done(
                pieces,
                agree,
                steps.subrange(start, end),
                between,
                after,
                Err(error),
            )
        };
    let piece = steps.subrange(start, end);
    assert(in_turn::<D, E, C>(crew, piece, between, after, Err(error)));
    lemma_ended_early::<D, E, C, V>(crew, steps, until, seen, error, start, end, between, after);
    lemma_pieces_seen::<D, E, C, A, V>(crew, agree, steps, until, seen, start, before, between);
}

/// The parts of exchanges keep what `seen` tells of a state.
pub open spec fn kept_by_parts<D, E, C: OverlapCrew<D, E>, V>(crew: C, seen: spec_fn(D) -> V) -> bool {
    &&& forall|index: usize, from: D, to: D, outcome: Result<(), OverlapError<E>>| #[trigger]
        crew.lands(index, from, to, outcome) ==> seen(to) == seen(from)
    &&& forall|index: usize, valid: bool, from: D, to: D, outcome: Result<(), OverlapError<E>>| #[trigger]
        crew.settles(index, valid, from, to, outcome) ==> seen(to) == seen(from)
}

/// How an execution with overlap reports that a step of its own failed.
pub open spec fn reports<E>(failure: FftOverlapError<E>, error: E) -> bool {
    ||| failure == FftOverlapError::<E>::Operation(error)
    ||| failure == FftOverlapError::<E>::Overlap(OverlapError::Callback(error))
}

/// No part of an exchange reports an error of a step.
pub open spec fn parts_tell_apart<D, E, C: OverlapCrew<D, E>>(crew: C, error: E) -> bool {
    &&& forall|index: usize, from: D, to: D| !#[trigger]
        crew.lands(index, from, to, Err(OverlapError::Callback(error)))
    &&& forall|index: usize, from: D, to: D| !#[trigger]
        crew.settles(index, true, from, to, Err(OverlapError::Callback(error)))
}

/// A piece with overlap that did not get beyond step `until` keeps what the steps before keep.
proof fn lemma_overlapped_seen<D, E, C: OverlapCrew<D, E>, V>(
    crew: C,
    steps: Seq<Step>,
    until: int,
    seen: spec_fn(D) -> V,
    error: E,
    start: int,
    end: int,
    before: D,
    after: D,
    outcome: Result<(), FftOverlapError<E>>,
)
    requires
        kept_until::<D, E, C, V>(crew, steps, until, seen),
        spared_from::<D, E, C>(crew, steps, until, error),
        kept_by_parts::<D, E, C, V>(crew, seen),
        parts_tell_apart::<D, E, C>(crew, error),
        0 <= start < end <= steps.len(),
        Pieces::<D, FftOverlapError<E>>::done(
            &(Overlapped { crew: &crew }),
            steps.subrange(start, end),
            before,
            after,
            outcome,
        ),
        match outcome {
            Ok(_) => end <= until,
            Err(failure) => reports(failure, error),
        },
        0 <= until,
    ensures
        seen(after) == seen(before),
        start < until,
{
    let piece = steps.subrange(start, end);
    match enclosing_exchange::<D, E, C>(crew, piece) {
        None => {
            let local = choose|local: Result<(), E>| #[trigger]
                in_turn::<D, E, C>(crew, piece, before, after, local) && outcome == open_outcome(
                    local,
                );
            match local {
                Ok(done) => {
                    assert(local == Ok::<(), E>(()));
                    lemma_seen_so_far::<D, E, C, V>(
                        crew,
                        steps,
                        until,
                        seen,
                        start,
                        end,
                        before,
                        after,
                    );
                },
                Err(found) => {
                    assert(found == error);
                    lemma_ended_early::<D, E, C, V>(
                        crew,
                        steps,
                        until,
                        seen,
                        error,
                        start,
                        end,
                        before,
                        after,
                    );
                },
            }
        },
        Some(index) => {
            let (landed, landing) = choose|landed: D, landing: Result<(), OverlapError<E>>|
                #[trigger]
                crew.lands(index, before, landed, landing) && match landing {
                    Err(found) => after == landed && outcome == Err::<(), FftOverlapError<E>>(
                        FftOverlapError::Overlap(found),
                    ),
                    Ok(_) => enclosed_done::<D, E, C>(
                        crew,
                        index,
                        piece.skip(1),
                        landed,
                        after,
                        outcome,
                    ),
                };
            let rest = piece.skip(1);
            assert(rest =~= steps.subrange(start + 1, end));
            let (worked, local, answer) = choose|
                worked: D,
                local: Result<(), E>,
                answer: Result<(), OverlapError<E>>,
            |
                {
                    &&& #[trigger] in_turn::<D, E, C>(crew, rest, landed, worked, local)
                    &&& #[trigger] crew.settles(index, local is Ok, worked, after, answer)
                    &&& outcome == enclosed_outcome(local, answer)
                };
            match local {
                Ok(done) => {
                    assert(local == Ok::<(), E>(()));
                    assert(outcome is Ok);
                    lemma_seen_so_far::<D, E, C, V>(
                        crew,
                        steps,
                        until,
                        seen,
                        start + 1,
                        end,
                        landed,
                        worked,
                    );
                },
                Err(found) => {
                    assert(found == error);
                    lemma_ended_early::<D, E, C, V>(
                        crew,
                        steps,
                        until,
                        seen,
                        error,
                        start + 1,
                        end,
                        landed,
                        worked,
                    );
                },
            }
        },
    }
}

proof fn lemma_overlapped_pieces_seen<D, E: Failure, C: OverlapCrew<D, E>, A: Fn(bool) -> bool, V>(
    crew: C,
    agree: A,
    steps: Seq<Step>,
    until: int,
    seen: spec_fn(D) -> V,
    error: E,
    end: int,
    before: D,
    after: D,
)
    requires
        kept_until::<D, E, C, V>(crew, steps, until, seen),
        spared_from::<D, E, C>(crew, steps, until, error),
        kept_by_parts::<D, E, C, V>(crew, seen),
        parts_tell_apart::<D, E, C>(crew, error),
        0 <= end <= steps.len(),
        end <= until,
        pieces_done::<D, FftOverlapError<E>, Overlapped<C>, A>(
            Overlapped { crew: &crew },
            agree,
            steps,
            end,
            before,
            after,
        ),
    ensures
        seen(after) == seen(before),
    decreases end,
{
    let pieces = Overlapped { crew: &crew };
    if end > 0 {
        let (start, between) = choose|start: int, between: D|
            {
                &&& 0 <= start < end
                &&& is_piece(steps, start, end)
                &&& pieces_done::<D, FftOverlapError<E>, Overlapped<C>, A>(
                    pieces,
                    agree,
                    steps,
                    start,
                    before,
                    between,
                )
                &&& #[trigger] piece_done::<D, FftOverlapError<E>, Overlapped<C>, A>(
                    pieces,
                    agree,
                    steps.subrange(start, end),
                    between,
                    after,
                    Ok(()),
                )
            };
        lemma_overlapped_pieces_seen::<D, E, C, A, V>(
            crew,
            agree,
            steps,
            until,
            seen,
            error,
            start,
            before,
            between,
        );
        assert(Pieces::<D, FftOverlapError<E>>::done(
            &pieces,
            steps.subrange(start, end),
            between,
            after,
            Ok(()),
        ));
        lemma_overlapped_seen::<D, E, C, V>(
            crew,
            steps,
            until,
            seen,
            error,
            start,
            end,
            between,
            after,
            Ok(()),
        );
    }
}

/// A run with overlap that reports an error that only steps in front of `until` give keeps what these
/// keep.
proof fn lemma_refused_overlapped<D, E: Failure, C: OverlapCrew<D, E>, A: Fn(bool) -> bool, V>(
    crew: C,
    agree: A,
    steps: Seq<Step>,
    until: int,
    seen: spec_fn(D) -> V,
    error: E,
    before: D,
    after: D,
    failure: FftOverlapError<E>,
)
    requires
        kept_until::<D, E, C, V>(crew, steps, until, seen),
        spared_from::<D, E, C>(crew, steps, until, error),
        kept_by_parts::<D, E, C, V>(crew, seen),
        parts_tell_apart::<D, E, C>(crew, error),
        error != E::spec_of_fft(FftError::CollectivePreconditionFailed),
        reports(failure, error),
        0 <= until,
        steps_run::<D, FftOverlapError<E>, Overlapped<C>, A>(
            Overlapped { crew: &crew },
            agree,
            steps,
            before,
            after,
            Err(failure),
        ),
    ensures
        seen(after) == seen(before),
{
    let pieces = Overlapped { crew: &crew };
    let (start, end, between) = choose|start: int, end: int, between: D|
        {
            &&& is_piece(steps, start, end)
            &&& pieces_done::<D, FftOverlapError<E>, Overlapped<C>, A>(
                pieces,
                agree,
                steps,
                start,
                before,
                between,
            )
            &&& #[trigger] piece_done::<D, FftOverlapError<E>, Overlapped<C>, A>(
                pieces,
                agree,
                steps.subrange(start, end),
                between,
                after,
                Err(failure),
            )
        };
    assert(Pieces::<D, FftOverlapError<E>>::done(
        &pieces,
        steps.subrange(start, end),
        between,
        after,
        Err(failure),
    ));
    lemma_overlapped_seen::<D, E, C, V>(
        crew,
        steps,
        until,
        seen,
        error,
        start,
        end,
        between,
        after,
        Err(failure),
    );
    lemma_overlapped_pieces_seen::<D, E, C, A, V>(
        crew,
        agree,
        steps,
        until,
        seen,
        error,
        start,
        before,
        between,
    );
}

proof fn lemma_r2c_spared<R: FftReal, FX: Fn(&[Complex<R>], usize) -> Result<Vec<R>, LocalR2cError>, FC: Fn(&[Complex<R>], usize) -> Result<Vec<Complex<R>>, LocalC2cError>, XR: Fn(usize, Passage, Load<R, N, M>) -> (Load<R, N, M>, Result<(), FftError>), XC: Fn(usize, Passage, Load<Complex<R>, N, M>) -> (Load<Complex<R>, N, M>, Result<(), FftError>), V: Inspector<R, R2cError, N, M>, const N: usize, const M: usize>(
    crew: R2cReverseCrew<R, FX, FC, XR, XC, V, N, M>,
    steps: Seq<Step>,
    at: int,
)
    requires
        0 <= at < steps.len() - 1,
        checked_at(steps, crew.core.boundary as int, at),
    ensures
        kept_until::<R2cReverseTask<R, N, M>, R2cError, R2cReverseCrew<R, FX, FC, XR, XC, V, N, M>, Seq<R>>(crew, steps, at + 2, |state: R2cReverseTask<R, N, M>| state.0.data@),
        spared_from::<R2cReverseTask<R, N, M>, R2cError, R2cReverseCrew<R, FX, FC, XR, XC, V, N, M>>(crew, steps, at + 2, R2cError::InvalidSpectrum),
{
    let seen = |state: R2cReverseTask<R, N, M>| state.0.data@;
    assert forall|i: int, from: R2cReverseTask<R, N, M>, to: R2cReverseTask<R, N, M>, outcome: Result<(), R2cError>|
        0 <= i < at + 2 && i < steps.len() && #[trigger] crew.does(steps[i], from, to, outcome) implies seen(
        to,
    ) == seen(from) by {
        if i < at {
            assert(before_check(steps[i], crew.core.boundary as int));
        }
    }
    assert forall|i: int, from: R2cReverseTask<R, N, M>, to: R2cReverseTask<R, N, M>|
        at + 2 <= i < steps.len() implies !#[trigger] crew.does(
        steps[i],
        from,
        to,
        Err(R2cError::InvalidSpectrum),
    ) by {
        assert(behind_check(steps[i], crew.core.boundary as int));
    }
}

/// A reverse execution of a real-to-complex plan that refuses its spectrum leaves the destination
/// as it was.
pub proof fn law_r2c_refused_spectrum<R: FftReal, FX: Fn(&[Complex<R>], usize) -> Result<Vec<R>, LocalR2cError>, FC: Fn(&[Complex<R>], usize) -> Result<Vec<Complex<R>>, LocalC2cError>, XR: Fn(usize, Passage, Load<R, N, M>) -> (Load<R, N, M>, Result<(), FftError>), XC: Fn(usize, Passage, Load<Complex<R>, N, M>) -> (Load<Complex<R>, N, M>, Result<(), FftError>), V: Inspector<R, R2cError, N, M>, Q: Fn(u64, &Vec<u64>) -> Result<(), FftError>, A: Fn(bool) -> bool, const N: usize, const M: usize>(
    crew: R2cReverseCrew<R, FX, FC, XR, XC, V, N, M>,
    launch: Launch<R2cError>,
    same_plan: Q,
    agree: A,
    eager: Seq<bool>,
    before: R2cReverseTask<R, N, M>,
    after: R2cReverseTask<R, N, M>,
)
    requires
        crew.able(),
        crew.direction != Direction::Forward,
        launch.steps@ == crew.core.itinerary().list(crew.direction, Mode::OutOfPlace, eager),
        executed(
            launch,
            crew.core.descriptor,
            same_plan,
            agree,
            InTurn { crew: &crew },
            before,
            after,
            Err(R2cError::InvalidSpectrum),
        ),
    ensures
        after.0.data@ == before.0.data@,
{
    let route = crew.core.itinerary();
    let steps = launch.steps@;
    assert(crew.core.stages.len() == crew.core.stages@.len());
    let at = route.law_endpoints_checked_first(Mode::OutOfPlace, eager);
    lemma_r2c_spared(crew, steps, at);
    if after != before {
        lemma_refused_run::<R2cReverseTask<R, N, M>, R2cError, R2cReverseCrew<R, FX, FC, XR, XC, V, N, M>, A, Seq<R>>(
            crew,
            agree,
            steps,
            at + 2,
            |state: R2cReverseTask<R, N, M>| state.0.data@,
            R2cError::InvalidSpectrum,
            before,
            after,
        );
    }
}

/// A reverse execution of a real-to-complex plan with overlap that refuses its spectrum leaves the
/// destination as it was.
pub proof fn law_r2c_refused_spectrum_overlapped<R: FftReal, FX: Fn(&[Complex<R>], usize) -> Result<Vec<R>, LocalR2cError>, FC: Fn(&[Complex<R>], usize) -> Result<Vec<Complex<R>>, LocalC2cError>, XR: Fn(usize, Passage, Load<R, N, M>) -> (Load<R, N, M>, Result<(), FftError>), XC: Fn(usize, Passage, Load<Complex<R>, N, M>) -> (Load<Complex<R>, N, M>, Result<(), FftError>), V: Inspector<R, R2cError, N, M>, YR: Fn(usize, Direction, Option<bool>, Load<R, N, M>) -> (Load<R, N, M>, Result<(), OverlapError<R2cError>>), YC: Fn(usize, Direction, Option<bool>, Load<Complex<R>, N, M>) -> (Load<Complex<R>, N, M>, Result<(), OverlapError<R2cError>>), Q: Fn(u64, &Vec<u64>) -> Result<(), FftError>, A: Fn(bool) -> bool, const N: usize, const M: usize>(
    crew: R2cReverseOverlapCrew<R, FX, FC, XR, XC, V, YR, YC, N, M>,
    launch: OverlapLaunch<R2cError>,
    same_plan: Q,
    agree: A,
    eager: Seq<bool>,
    before: R2cReverseTask<R, N, M>,
    after: R2cReverseTask<R, N, M>,
    failure: FftOverlapError<R2cError>,
)
    requires
        crew.able(),
        crew.crew.direction != Direction::Forward,
        launch.steps@ == crew.crew.core.itinerary().list(crew.crew.direction, Mode::Overlap, eager),
        parts_tell_apart::<R2cReverseTask<R, N, M>, R2cError, R2cReverseOverlapCrew<R, FX, FC, XR, XC, V, YR, YC, N, M>>(crew, R2cError::InvalidSpectrum),
        reports(failure, R2cError::InvalidSpectrum),
        executed_overlapped(
            launch,
            crew.crew.core.descriptor,
            same_plan,
            agree,
            Overlapped { crew: &crew },
            before,
            after,
            Err(failure),
        ),
    ensures
        after.0.data@ == before.0.data@,
{
    let route = crew.crew.core.itinerary();
    let steps = launch.steps@;
    let seen = |state: R2cReverseTask<R, N, M>| state.0.data@;
    assert(crew.crew.core.stages.len() == crew.crew.core.stages@.len());
    let at = route.law_endpoints_checked_first(Mode::Overlap, eager);
    lemma_r2c_spared(crew.crew, steps, at);
    assert forall|i: int, from: R2cReverseTask<R, N, M>, to: R2cReverseTask<R, N, M>, outcome: Result<(), R2cError>|
        0 <= i < at + 2 && i < steps.len() && #[trigger] crew.does(steps[i], from, to, outcome) implies seen(
        to,
    ) == seen(from) by {
        assert(crew.crew.does(steps[i], from, to, outcome));
    }
    assert forall|i: int, from: R2cReverseTask<R, N, M>, to: R2cReverseTask<R, N, M>|
        at + 2 <= i < steps.len() implies !#[trigger] crew.does(
        steps[i],
        from,
        to,
        Err(R2cError::InvalidSpectrum),
    ) by {
        assert(!crew.crew.does(steps[i], from, to, Err(R2cError::InvalidSpectrum)));
    }
    if after != before {
        lemma_refused_overlapped::<R2cReverseTask<R, N, M>, R2cError, R2cReverseOverlapCrew<R, FX, FC, XR, XC, V, YR, YC, N, M>, A, Seq<R>>(
            crew,
            agree,
            steps,
            at + 2,
            seen,
            R2cError::InvalidSpectrum,
            before,
            after,
            failure,
        );
    }
}

proof fn lemma_mixed_r2c_spared<R: FftReal, FR: Fn(&[R], usize) -> Result<Vec<R>, LocalError>, FX: Fn(&[Complex<R>], usize) -> Result<Vec<R>, LocalError>, FC: Fn(&[Complex<R>], usize) -> Result<Vec<Complex<R>>, LocalError>, XR: Fn(usize, Passage, Load<R, N, M>) -> (Load<R, N, M>, Result<(), FftError>), XC: Fn(usize, Passage, Load<Complex<R>, N, M>) -> (Load<Complex<R>, N, M>, Result<(), FftError>), V: Inspector<R, MixedError, N, M>, const N: usize, const M: usize>(
    crew: MixedR2cReverseCrew<R, FR, FX, FC, XR, XC, V, N, M>,
    steps: Seq<Step>,
    at: int,
)
    requires
        0 <= at < steps.len() - 1,
        checked_at(steps, crew.core.boundary as int, at),
    ensures
        kept_until::<MixedR2cReverseTask<R, N, M>, MixedError, MixedR2cReverseCrew<R, FR, FX, FC, XR, XC, V, N, M>, Seq<R>>(crew, steps, at + 2, |state: MixedR2cReverseTask<R, N, M>| state.0.data@),
        spared_from::<MixedR2cReverseTask<R, N, M>, MixedError, MixedR2cReverseCrew<R, FR, FX, FC, XR, XC, V, N, M>>(crew, steps, at + 2, MixedError::InvalidSpectrum),
{
    let seen = |state: MixedR2cReverseTask<R, N, M>| state.0.data@;
    assert forall|i: int, from: MixedR2cReverseTask<R, N, M>, to: MixedR2cReverseTask<R, N, M>, outcome: Result<(), MixedError>|
        0 <= i < at + 2 && i < steps.len() && #[trigger] crew.does(steps[i], from, to, outcome) implies seen(
        to,
    ) == seen(from) by {
        if i < at {
            assert(before_check(steps[i], crew.core.boundary as int));
        }
    }
    assert forall|i: int, from: MixedR2cReverseTask<R, N, M>, to: MixedR2cReverseTask<R, N, M>|
        at + 2 <= i < steps.len() implies !#[trigger] crew.does(
        steps[i],
        from,
        to,
        Err(MixedError::InvalidSpectrum),
    ) by {
        assert(behind_check(steps[i], crew.core.boundary as int));
    }
}

/// A reverse execution of a mixed real-to-complex plan that refuses its spectrum leaves the
/// destination as it was.
pub proof fn law_mixed_r2c_refused_spectrum<R: FftReal, FR: Fn(&[R], usize) -> Result<Vec<R>, LocalError>, FX: Fn(&[Complex<R>], usize) -> Result<Vec<R>, LocalError>, FC: Fn(&[Complex<R>], usize) -> Result<Vec<Complex<R>>, LocalError>, XR: Fn(usize, Passage, Load<R, N, M>) -> (Load<R, N, M>, Result<(), FftError>), XC: Fn(usize, Passage, Load<Complex<R>, N, M>) -> (Load<Complex<R>, N, M>, Result<(), FftError>), V: Inspector<R, MixedError, N, M>, Q: Fn(u64, &Vec<u64>) -> Result<(), FftError>, A: Fn(bool) -> bool, const N: usize, const M: usize>(
    crew: MixedR2cReverseCrew<R, FR, FX, FC, XR, XC, V, N, M>,
    launch: Launch<MixedError>,
    same_plan: Q,
    agree: A,
    eager: Seq<bool>,
    before: MixedR2cReverseTask<R, N, M>,
    after: MixedR2cReverseTask<R, N, M>,
)
    requires
        crew.able(),
        crew.direction != Direction::Forward,
        launch.steps@ == crew.core.itinerary().list(crew.direction, Mode::OutOfPlace, eager),
        executed(
            launch,
            crew.core.descriptor,
            same_plan,
            agree,
            InTurn { crew: &crew },
            before,
            after,
            Err(MixedError::InvalidSpectrum),
        ),
    ensures
        after.0.data@ == before.0.data@,
{
    let route = crew.core.itinerary();
    let steps = launch.steps@;
    assert(crew.core.stages.len() == crew.core.stages@.len());
    let at = route.law_endpoints_checked_first(Mode::OutOfPlace, eager);
    lemma_mixed_r2c_spared(crew, steps, at);
    if after != before {
        lemma_refused_run::<MixedR2cReverseTask<R, N, M>, MixedError, MixedR2cReverseCrew<R, FR, FX, FC, XR, XC, V, N, M>, A, Seq<R>>(
            crew,
            agree,
            steps,
            at + 2,
            |state: MixedR2cReverseTask<R, N, M>| state.0.data@,
            MixedError::InvalidSpectrum,
            before,
            after,
        );
    }
}

/// A reverse execution of a mixed real-to-complex plan with overlap that refuses its spectrum
/// leaves the destination as it was.
pub proof fn law_mixed_r2c_refused_spectrum_overlapped<R: FftReal, FR: Fn(&[R], usize) -> Result<Vec<R>, LocalError>, FX: Fn(&[Complex<R>], usize) -> Result<Vec<R>, LocalError>, FC: Fn(&[Complex<R>], usize) -> Result<Vec<Complex<R>>, LocalError>, XR: Fn(usize, Passage, Load<R, N, M>) -> (Load<R, N, M>, Result<(), FftError>), XC: Fn(usize, Passage, Load<Complex<R>, N, M>) -> (Load<Complex<R>, N, M>, Result<(), FftError>), V: Inspector<R, MixedError, N, M>, YR: Fn(usize, Direction, Option<bool>, Load<R, N, M>) -> (Load<R, N, M>, Result<(), OverlapError<MixedError>>), YC: Fn(usize, Direction, Option<bool>, Load<Complex<R>, N, M>) -> (Load<Complex<R>, N, M>, Result<(), OverlapError<MixedError>>), Q: Fn(u64, &Vec<u64>) -> Result<(), FftError>, A: Fn(bool) -> bool, const N: usize, const M: usize>(
    crew: MixedR2cReverseOverlapCrew<R, FR, FX, FC, XR, XC, V, YR, YC, N, M>,
    launch: OverlapLaunch<MixedError>,
    same_plan: Q,
    agree: A,
    eager: Seq<bool>,
    before: MixedR2cReverseTask<R, N, M>,
    after: MixedR2cReverseTask<R, N, M>,
    failure: FftOverlapError<MixedError>,
)
    requires
        crew.able(),
        crew.crew.direction != Direction::Forward,
        launch.steps@ == crew.crew.core.itinerary().list(crew.crew.direction, Mode::Overlap, eager),
        parts_tell_apart::<MixedR2cReverseTask<R, N, M>, MixedError, MixedR2cReverseOverlapCrew<R, FR, FX, FC, XR, XC, V, YR, YC, N, M>>(crew, MixedError::InvalidSpectrum),
        reports(failure, MixedError::InvalidSpectrum),
        executed_overlapped(
            launch,
            crew.crew.core.descriptor,
            same_plan,
            agree,
            Overlapped { crew: &crew },
            before,
            after,
            Err(failure),
        ),
    ensures
        after.0.data@ == before.0.data@,
{
    let route = crew.crew.core.itinerary();
    let steps = launch.steps@;
    let seen = |state: MixedR2cReverseTask<R, N, M>| state.0.data@;
    assert(crew.crew.core.stages.len() == crew.crew.core.stages@.len());
    let at = route.law_endpoints_checked_first(Mode::Overlap, eager);
    lemma_mixed_r2c_spared(crew.crew, steps, at);
    assert forall|i: int, from: MixedR2cReverseTask<R, N, M>, to: MixedR2cReverseTask<R, N, M>, outcome: Result<(), MixedError>|
        0 <= i < at + 2 && i < steps.len() && #[trigger] crew.does(steps[i], from, to, outcome) implies seen(
        to,
    ) == seen(from) by {
        assert(crew.crew.does(steps[i], from, to, outcome));
    }
    assert forall|i: int, from: MixedR2cReverseTask<R, N, M>, to: MixedR2cReverseTask<R, N, M>|
        at + 2 <= i < steps.len() implies !#[trigger] crew.does(
        steps[i],
        from,
        to,
        Err(MixedError::InvalidSpectrum),
    ) by {
        assert(!crew.crew.does(steps[i], from, to, Err(MixedError::InvalidSpectrum)));
    }
    if after != before {
        lemma_refused_overlapped::<MixedR2cReverseTask<R, N, M>, MixedError, MixedR2cReverseOverlapCrew<R, FR, FX, FC, XR, XC, V, YR, YC, N, M>, A, Seq<R>>(
            crew,
            agree,
            steps,
            at + 2,
            seen,
            MixedError::InvalidSpectrum,
            before,
            after,
            failure,
        );
    }
}

} // verus!
