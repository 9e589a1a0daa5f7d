//! How values go from process to process in the steps of an execution.

use vstd::prelude::*;

use crate::array::ManyPencilArray;
use crate::error::Failure;
use crate::error::FftError;
use crate::error::OverlapError;
use crate::layout::Direction;
use crate::perform::unknown_step;
use crate::station::same_registry;
use crate::transition::ExchangeKind;
use crate::transition::Passage;
use crate::transition::Transition;
use crate::workspace::TransposeWorkspace;

verus! {

/// An array and the buffers of its exchanges.
pub type Load<T, const N: usize, const M: usize> = (
    ManyPencilArray<T, N, M>,
    TransposeWorkspace<T>,
);

/// A load that could be worked on still can, with the same layouts.
pub open spec fn loaded<T, const N: usize, const M: usize>(
    before: Load<T, N, M>,
    after: Load<T, N, M>,
) -> bool {
    before.0.wf() ==> after.0.wf() && same_registry(before.0, after.0)
}

/// `whole`, which does an exchange at once, can be asked for any, and one that succeeds keeps the
/// array in order.
pub open spec fn carries<T, X: Fn(usize, Passage, Load<T, N, M>) -> (Load<T, N, M>, Result<(), FftError>), const N: usize, const M: usize>(
    whole: X,
) -> bool {
    &&& forall|index: usize, passage: Passage, load: Load<T, N, M>| #[trigger]
        whole.requires((index, passage, load))
    &&& forall|index: usize, passage: Passage, load: Load<T, N, M>, after: Load<T, N, M>| #[trigger]
        whole.ensures((index, passage, load), (after, Ok(()))) ==> loaded(load, after)
}

/// `split`, which brings the values of an exchange in and, called again with the own word on the
/// work inside it, waits for the own sends and for the other processes, can be asked for any, and
/// one that succeeds keeps the array in order.
pub open spec fn carries_split<T, E, Y: Fn(usize, Direction, Option<bool>, Load<T, N, M>) -> (Load<T, N, M>, Result<(), OverlapError<E>>), const N: usize, const M: usize>(
    split: Y,
) -> bool {
    &&& forall|index: usize, direction: Direction, valid: Option<bool>, load: Load<T, N, M>| #[trigger]
        split.requires((index, direction, valid, load))
    &&& forall|
        index: usize,
        direction: Direction,
        valid: Option<bool>,
        load: Load<T, N, M>,
        after: Load<T, N, M>,
    | #[trigger]
        split.ensures((index, direction, valid, load), (after, Ok(()))) ==> loaded(load, after)
}

/// What an exchange comes to.
pub open spec fn carried<T, E: Failure, X: Fn(usize, Passage, Load<T, N, M>) -> (Load<T, N, M>, Result<(), FftError>), const N: usize, const M: usize>(
    whole: X,
    transitions: Seq<Transition>,
    direction: Direction,
    index: usize,
    before: Load<T, N, M>,
    after: Load<T, N, M>,
    outcome: Result<(), E>,
) -> bool {
    if index < transitions.len() {
        exists|answer: Result<(), FftError>|
            {
                &&& #[trigger] whole.ensures(
                    (index, transitions[index as int].spec_passage(direction), before),
                    (after, answer),
                )
                &&& outcome == match answer {
                    Ok(_) => Ok::<(), E>(()),
                    Err(error) => Err(E::spec_of_fft(error)),
                }
            }
    } else {
        after == before && unknown_step(outcome)
    }
}

/// Does an exchange.
pub fn carry<T, E: Failure, X: Fn(usize, Passage, Load<T, N, M>) -> (Load<T, N, M>, Result<(), FftError>), const N: usize, const M: usize>(
    whole: &X,
    transitions: &Vec<Transition>,
    direction: Direction,
    index: usize,
    load: Load<T, N, M>,
) -> (result: (Load<T, N, M>, Result<(), E>))
    requires
        carries::<T, X, N, M>(*whole),
    ensures
        result.1 is Ok ==> loaded(load, result.0),
        carried::<T, E, X, N, M>(
            *whole,
            transitions@,
            direction,
            index,
            load,
            result.0,
            result.1,
        ),
{
    if index >= transitions.len() {
        return (load, Err(E::of_fft(FftError::PreparationFailed)));
    }
    let passage: Passage = transitions[index].passage(direction);
    let ghost before = load;
    let (after, answer): (Load<T, N, M>, Result<(), FftError>) = whole(index, passage, load);
    assert(whole.ensures((index, passage, before), (after, answer)));
    match answer {
        Ok(done) => {
            assert(answer == Ok::<(), FftError>(()));
            (after, Ok(done))
        },
        Err(error) => (after, Err(E::of_fft(error))),
    }
}

/// Exchange `index` of an execution goes point to point.
pub open spec fn goes_point_to_point(
    transitions: Seq<Transition>,
    direction: Direction,
    index: usize,
) -> bool {
    index < transitions.len() && transitions[index as int].spec_along(direction)
        == ExchangeKind::PointToPoint
}

/// Tells whether exchange `index` of an execution goes point to point.
pub fn is_point_to_point(transitions: &Vec<Transition>, direction: Direction, index: usize) -> (yes:
    bool)
    ensures
        yes == goes_point_to_point(transitions@, direction, index),
{
    index < transitions.len() && transitions[index].along(direction) == ExchangeKind::PointToPoint
}

} // verus!
