//! Those who do the steps of an execution: one after the other, or inside the receive of an
//! exchange.

use vstd::prelude::*;
use vstd::slice::slice_subrange;

use crate::error::FftOverlapError;
use crate::error::OverlapError;
use crate::schedule::Step;
use crate::schedule::Work;

verus! {

/// Those who do the single steps of an execution.
pub trait Crew<D, E> {
    /// They can work at all.
    spec fn able(&self) -> bool;

    /// They can work on `state`.
    spec fn fit(&self, state: D) -> bool;

    /// What a step comes to.
    spec fn does(&self, step: Step, before: D, after: D, outcome: Result<(), E>) -> bool;

    /// Does a step.
    fn work(&self, step: &Step, state: D) -> (result: (D, Result<(), E>))
        requires
            self.able(),
            self.fit(state),
        ensures
            result.1 is Ok ==> self.fit(result.0),
            self.does(*step, state, result.0, result.1),
    ;
}

/// A crew that can work inside the receive of an exchange.
pub trait OverlapCrew<D, E>: Crew<D, E> {
    /// Exchange `index` goes point to point.
    spec fn spec_eager(&self, index: usize) -> bool;

    /// What bringing the values of an exchange in comes to, while own sends may be under way.
    spec fn lands(
        &self,
        index: usize,
        before: D,
        after: D,
        outcome: Result<(), OverlapError<E>>,
    ) -> bool;

    /// What waiting for the own sends of an exchange comes to, and for the word of the other
    /// processes on the work inside it; `valid` is the own word.
    spec fn settles(
        &self,
        index: usize,
        valid: bool,
        before: D,
        after: D,
        outcome: Result<(), OverlapError<E>>,
    ) -> bool;

    /// Tells whether exchange `index` goes point to point.
    fn eager(&self, index: usize) -> (yes: bool)
        requires
            self.able(),
        ensures
            yes == self.spec_eager(index),
    ;

    /// Brings the values of an exchange in.
    fn land(&self, index: usize, state: D) -> (result: (D, Result<(), OverlapError<E>>))
        requires
            self.able(),
            self.fit(state),
        ensures
            result.1 is Ok ==> self.fit(result.0),
            self.lands(index, state, result.0, result.1),
    ;

    /// Waits for the own sends of an exchange and for the word of the other processes.
    fn settle(&self, index: usize, valid: bool, state: D) -> (result: (
        D,
        Result<(), OverlapError<E>>,
    ))
        requires
            self.able(),
            valid ==> self.fit(state),
        ensures
            valid && result.1 is Ok ==> self.fit(result.0),
            self.settles(index, valid, state, result.0, result.1),
    ;
}

/// All steps were done, one after the other, and succeeded.
pub open spec fn all_done<D, E, C: Crew<D, E>>(
    crew: C,
    steps: Seq<Step>,
    before: D,
    after: D,
) -> bool
    decreases steps.len(),
{
    if steps.len() == 0 {
        after == before
    } else {
        exists|between: D|
            all_done::<D, E, C>(crew, steps.drop_last(), before, between) && #[trigger] crew.does(
                steps.last(),
                between,
                after,
                Ok(()),
            )
    }
}

/// What steps come to that are done one after the other, until one fails.
pub open spec fn in_turn<D, E, C: Crew<D, E>>(
    crew: C,
    steps: Seq<Step>,
    before: D,
    after: D,
    outcome: Result<(), E>,
) -> bool {
    match outcome {
        Ok(_) => all_done::<D, E, C>(crew, steps, before, after),
        Err(error) => exists|at: int, between: D|
            {
                &&& 0 <= at < steps.len()
                &&& all_done::<D, E, C>(crew, steps.take(at), before, between)
                &&& #[trigger] crew.does(steps[at], between, after, Err(error))
            },
    }
}

/// Crews whose steps come to the same do the same.
pub proof fn lemma_same_steps<D, E, C: Crew<D, E>, O: Crew<D, E>>(
    one: C,
    other: O,
    steps: Seq<Step>,
    before: D,
    after: D,
)
    requires
        forall|step: Step, from: D, to: D, outcome: Result<(), E>| #[trigger]
            one.does(step, from, to, outcome) ==> other.does(step, from, to, outcome),
        all_done::<D, E, C>(one, steps, before, after),
    ensures
        all_done::<D, E, O>(other, steps, before, after),
    decreases steps.len(),
{
    if steps.len() > 0 {
        let between = choose|between: D|
            all_done::<D, E, C>(one, steps.drop_last(), before, between) && #[trigger] one.does(
                steps.last(),
                between,
                after,
                Ok(()),
            );
        lemma_same_steps::<D, E, C, O>(one, other, steps.drop_last(), before, between);
        assert(other.does(steps.last(), between, after, Ok(())));
    }
}

/// Does steps one after the other, until one fails.
pub fn work_in_turn<D, E, C: Crew<D, E>>(crew: &C, steps: &[Step], state: D) -> (result: (
    D,
    Result<(), E>,
))
    requires
        crew.able(),
        crew.fit(state),
    ensures
        result.1 is Ok ==> crew.fit(result.0),
        in_turn::<D, E, C>(*crew, steps@, state, result.0, result.1),
{
    let ghost before = state;
    let mut current = state;
    let mut at: usize = 0;
    assert(steps@.take(0) =~= Seq::<Step>::empty());
    while at < steps.len()
        invariant
            before == state,
            at <= steps@.len(),
            crew.able(),
            crew.fit(current),
            all_done::<D, E, C>(*crew, steps@.take(at as int), before, current),
        decreases steps@.len() - at,
    {
        let ghost between = current;
        let (after, outcome): (D, Result<(), E>) = crew.work(&steps[at], current);
        assert(crew.does(steps@[at as int], between, after, outcome));
        match outcome {
            Ok(done) => {
                assert(outcome == Ok::<(), E>(()));
                current = after;
            },
            Err(error) => {
                return (after, Err(error));
            },
        }
        proof {
            let longer = steps@.take(at + 1);
            assert(longer.drop_last() =~= steps@.take(at as int));
            assert(longer.last() == steps@[at as int]);
        }
        at += 1;
    }
    assert(steps@.take(at as int) =~= steps@);
    (current, Ok(()))
}

/// How the steps of a piece are done.
pub trait Pieces<D, E> {
    /// Pieces can be done at all.
    spec fn able(&self) -> bool;

    /// Pieces can be done on `state`.
    spec fn fit(&self, state: D) -> bool;

    /// What a piece comes to.
    spec fn done(&self, piece: Seq<Step>, before: D, after: D, outcome: Result<(), E>) -> bool;

    /// Does a piece.
    fn perform(&self, piece: &[Step], state: D) -> (result: (D, Result<(), E>))
        requires
            self.able(),
            self.fit(state),
        ensures
            result.1 is Ok ==> self.fit(result.0),
            self.done(piece@, state, result.0, result.1),
    ;
}

/// The steps of a piece are done one after the other.
pub struct InTurn<'a, C> {
    /// Those who do the steps.
    pub crew: &'a C,
}

impl<'a, D, E, C: Crew<D, E>> Pieces<D, E> for InTurn<'a, C> {
    open spec fn able(&self) -> bool {
        self.crew.able()
    }

    open spec fn fit(&self, state: D) -> bool {
        self.crew.fit(state)
    }

    open spec fn done(
        &self,
        piece: Seq<Step>,
        before: D,
        after: D,
        outcome: Result<(), E>,
    ) -> bool {
        in_turn::<D, E, C>(*self.crew, piece, before, after, outcome)
    }

    fn perform(&self, piece: &[Step], state: D) -> (result: (D, Result<(), E>)) {
        work_in_turn(self.crew, piece, state)
    }
}

/// The exchange that a piece does its other steps inside of, if it does so.
pub open spec fn enclosing_exchange<D, E, C: OverlapCrew<D, E>>(
    crew: C,
    piece: Seq<Step>,
) -> Option<usize> {
    if piece.len() > 1 {
        match piece[0].work {
            Work::Exchange(index) => if crew.spec_eager(index) {
                Some(index)
            } else {
                None
            },
            _ => None,
        }
    } else {
        None
    }
}

/// What is reported of work inside an exchange and of the exchange.
pub open spec fn enclosed_outcome<E>(
    local: Result<(), E>,
    answer: Result<(), OverlapError<E>>,
) -> Result<(), FftOverlapError<E>> {
    match local {
        Err(error) => Err(FftOverlapError::Overlap(OverlapError::Callback(error))),
        Ok(_) => match answer {
            Err(error) => Err(FftOverlapError::Overlap(error)),
            Ok(_) => Ok(()),
        },
    }
}

/// What is reported of work that no exchange encloses.
pub open spec fn open_outcome<E>(local: Result<(), E>) -> Result<(), FftOverlapError<E>> {
    match local {
        Err(error) => Err(FftOverlapError::Operation(error)),
        Ok(_) => Ok(()),
    }
}

/// The other steps of a piece are done once the values of its exchange came in.
pub open spec fn enclosed_done<D, E, C: OverlapCrew<D, E>>(
    crew: C,
    index: usize,
    rest: Seq<Step>,
    landed: D,
    after: D,
    outcome: Result<(), FftOverlapError<E>>,
) -> bool {
    exists|worked: D, local: Result<(), E>, answer: Result<(), OverlapError<E>>|
        {
            &&& #[trigger] in_turn::<D, E, C>(crew, rest, landed, worked, local)
            &&& #[trigger] crew.settles(index, local is Ok, worked, after, answer)
            &&& outcome == enclosed_outcome(local, answer)
        }
}

/// The steps of a piece that follow an exchange are done inside it, if it goes point to point.
pub struct Overlapped<'a, C> {
    /// Those who do the steps.
    pub crew: &'a C,
}

impl<'a, D, E, C: OverlapCrew<D, E>> Pieces<D, FftOverlapError<E>> for Overlapped<'a, C> {
    open spec fn able(&self) -> bool {
        self.crew.able()
    }

    open spec fn fit(&self, state: D) -> bool {
        self.crew.fit(state)
    }

    open spec fn done(
        &self,
        piece: Seq<Step>,
        before: D,
        after: D,
        outcome: Result<(), FftOverlapError<E>>,
    ) -> bool {
        match enclosing_exchange::<D, E, C>(*self.crew, piece) {
            None => exists|local: Result<(), E>| #[trigger]
                in_turn::<D, E, C>(*self.crew, piece, before, after, local) && outcome
                    == open_outcome(local),
            Some(index) => exists|landed: D, landing: Result<(), OverlapError<E>>| #[trigger]
                self.crew.lands(index, before, landed, landing) && match landing {
                    Err(error) => after == landed && outcome == Err::<(), FftOverlapError<E>>(
                        FftOverlapError::Overlap(error),
                    ),
                    Ok(_) => enclosed_done::<D, E, C>(
                        *self.crew,
                        index,
                        piece.skip(1),
                        landed,
                        after,
                        outcome,
                    ),
                },
        }
    }

    fn perform(&self, piece: &[Step], state: D) -> (result: (
        D,
        Result<(), FftOverlapError<E>>,
    )) {
        let mut enclosing: Option<usize> = None;
        if piece.len() > 1 {
            match piece[0].work {
                Work::Exchange(index) => {
                    if self.crew.eager(index) {
                        enclosing = Some(index);
                    }
                },
                _ => {},
            }
        }
        match enclosing {
            None => {
                let (after, local): (D, Result<(), E>) = work_in_turn(self.crew, piece, state);
                assert(in_turn::<D, E, C>(*self.crew, piece@, state, after, local));
                match local {
                    Ok(done) => (after, Ok(done)),
                    Err(error) => (after, Err(FftOverlapError::Operation(error))),
                }
            },
            Some(index) => {
                let (landed, landing): (D, Result<(), OverlapError<E>>) = self.crew.land(
                    index,
                    state,
                );
                assert(self.crew.lands(index, state, landed, landing));
                match landing {
                    Err(error) => {
                        return (landed, Err(FftOverlapError::Overlap(error)));
                    },
                    Ok(_) => {},
                }
                let rest: &[Step] = slice_subrange(piece, 1, piece.len());
                assert(rest@ =~= piece@.skip(1));
                let ghost before = landed;
                let (worked, local): (D, Result<(), E>) = work_in_turn(self.crew, rest, landed);
                let ghost within = worked;
                let (after, answer): (D, Result<(), OverlapError<E>>) = self.crew.settle(
                    index,
                    local.is_ok(),
                    worked,
                );
                assert(in_turn::<D, E, C>(*self.crew, rest@, before, within, local));
                assert(self.crew.settles(index, local is Ok, within, after, answer));
                match local {
                    Err(error) => (
                        after,
                        Err(FftOverlapError::Overlap(OverlapError::Callback(error))),
                    ),
                    Ok(_) => match answer {
                        Err(error) => (after, Err(FftOverlapError::Overlap(error))),
                        Ok(done) => (after, Ok(done)),
                    },
                }
            },
        }
    }
}

} // verus!
