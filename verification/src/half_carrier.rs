//! How real and complex values go from process to process in the steps of an execution.

use vstd::prelude::*;

use crate::array::ManyPencilArray;
use crate::carrier::carried;
use crate::carrier::carries;
use crate::carrier::carries_split;
use crate::carrier::carry;
use crate::carrier::Load;
use crate::error::Failure;
use crate::error::FftError;
use crate::error::OverlapError;
use crate::handoff::HalfComplexStorage;
use crate::handoff::SharedStorage;
use crate::layout::Direction;
use crate::perform::missing_array;
use crate::perform::HalfArrays;
use crate::scalar::Complex;
use crate::schedule::Slot;
use crate::shared::same_frame;
use crate::shared::shared_wf;
use crate::station::same_registry;
use crate::transition::Passage;
use crate::transition::Transition;
use crate::workspace::TransposeWorkspace;

verus! {

/// The arrays between the stages of a half-complex execution, and the buffers of their exchanges.
#[derive(Debug)]
pub struct HalfLoad<R, const N: usize, const M: usize> {
    /// The real values, where there are real exchanges.
    pub reals: Option<ManyPencilArray<R, N, M>>,
    /// The buffers of real exchanges, where there are any.
    pub real_buffers: Option<TransposeWorkspace<R>>,
    /// The complex values.
    pub complexes: ManyPencilArray<Complex<R>, N, M>,
    /// The buffers of complex exchanges.
    pub buffers: TransposeWorkspace<Complex<R>>,
}

impl<R, const N: usize, const M: usize> HalfLoad<R, N, M> {
    /// The arrays.
    pub open spec fn arrays(self) -> HalfArrays<R, N, M> {
        HalfArrays { reals: self.reals, complexes: self.complexes }
    }

    /// A load that could be worked on still can, with the same complex layouts.
    pub open spec fn serves(self, before: HalfLoad<R, N, M>) -> bool {
        before.arrays().wf() ==> self.arrays().wf() && same_registry(
            before.complexes,
            self.complexes,
        )
    }
}

/// What an exchange of the values in `at` comes to.
pub open spec fn half_carried<R, E: Failure, XR: Fn(usize, Passage, Load<R, N, M>) -> (Load<R, N, M>, Result<(), FftError>), XC: Fn(usize, Passage, Load<Complex<R>, N, M>) -> (Load<Complex<R>, N, M>, Result<(), FftError>), const N: usize, const M: usize>(
    real_exchange: XR,
    exchange: XC,
    transitions: Seq<Transition>,
    direction: Direction,
    index: usize,
    at: Slot,
    before: HalfLoad<R, N, M>,
    after: HalfLoad<R, N, M>,
    outcome: Result<(), E>,
) -> bool {
    if at == Slot::Real {
        &&& after.complexes == before.complexes
        &&& after.buffers == before.buffers
        &&& match (before.reals, before.real_buffers, after.reals, after.real_buffers) {
            (Some(array), Some(buffers), Some(moved), Some(used)) => carried::<R, E, XR, N, M>(
                real_exchange,
                transitions,
                direction,
                index,
                (array, buffers),
                (moved, used),
                outcome,
            ),
            (Some(_), Some(_), _, _) => false,
            _ => after == before && missing_array(outcome),
        }
    } else {
        &&& after.reals == before.reals
        &&& after.real_buffers == before.real_buffers
        &&& carried::<Complex<R>, E, XC, N, M>(
            exchange,
            transitions,
            direction,
            index,
            (before.complexes, before.buffers),
            (after.complexes, after.buffers),
            outcome,
        )
    }
}

/// Exchanges the values in `at`.
pub fn half_carry<R, E: Failure, XR: Fn(usize, Passage, Load<R, N, M>) -> (Load<R, N, M>, Result<(), FftError>), XC: Fn(usize, Passage, Load<Complex<R>, N, M>) -> (Load<Complex<R>, N, M>, Result<(), FftError>), const N: usize, const M: usize>(
    real_exchange: &XR,
    exchange: &XC,
    transitions: &Vec<Transition>,
    direction: Direction,
    index: usize,
    at: Slot,
    load: HalfLoad<R, N, M>,
) -> (result: (HalfLoad<R, N, M>, Result<(), E>))
    requires
        carries::<R, XR, N, M>(*real_exchange),
        carries::<Complex<R>, XC, N, M>(*exchange),
    ensures
        result.1 is Ok ==> result.0.serves(load),
        half_carried::<R, E, XR, XC, N, M>(
            *real_exchange,
            *exchange,
            transitions@,
            direction,
            index,
            at,
            load,
            result.0,
            result.1,
        ),
{
    let HalfLoad { reals, real_buffers, complexes, buffers } = load;
    match at {
        Slot::Real => match (reals, real_buffers) {
            (Some(array), Some(used)) => {
                let ((moved, left), outcome): (Load<R, N, M>, Result<(), E>) = carry(
                    real_exchange,
                    transitions,
                    direction,
                    index,
                    (array, used),
                );
                (
                    HalfLoad {
                        reals: Some(moved),
                        real_buffers: Some(left),
                        complexes,
                        buffers,
                    },
                    outcome,
                )
            },
            (reals, real_buffers) => (
                HalfLoad { reals, real_buffers, complexes, buffers },
                Err(E::of_fft(FftError::WorkspaceMismatch)),
            ),
        },
        _ => {
            let ((moved, left), outcome): (Load<Complex<R>, N, M>, Result<(), E>) = carry(
                exchange,
                transitions,
                direction,
                index,
                (complexes, buffers),
            );
            (HalfLoad { reals, real_buffers, complexes: moved, buffers: left }, outcome)
        },
    }
}

/// What a part of an exchange of the values in `at` comes to.
pub open spec fn half_part_done<R, E, YR: Fn(usize, Direction, Option<bool>, Load<R, N, M>) -> (Load<R, N, M>, Result<(), OverlapError<E>>), YC: Fn(usize, Direction, Option<bool>, Load<Complex<R>, N, M>) -> (Load<Complex<R>, N, M>, Result<(), OverlapError<E>>), const N: usize, const M: usize>(
    real_split: YR,
    split: YC,
    direction: Direction,
    index: usize,
    at: Slot,
    valid: Option<bool>,
    before: HalfLoad<R, N, M>,
    after: HalfLoad<R, N, M>,
    outcome: Result<(), OverlapError<E>>,
) -> bool {
    if at == Slot::Real {
        &&& after.complexes == before.complexes
        &&& after.buffers == before.buffers
        &&& match (before.reals, before.real_buffers, after.reals, after.real_buffers) {
            (Some(array), Some(buffers), Some(moved), Some(used)) => real_split.ensures(
                (index, direction, valid, (array, buffers)),
                ((moved, used), outcome),
            ),
            (Some(_), Some(_), _, _) => false,
            _ => after == before && outcome == Err::<(), OverlapError<E>>(
                OverlapError::CollectivePreconditionFailed,
            ),
        }
    } else {
        &&& after.reals == before.reals
        &&& after.real_buffers == before.real_buffers
        &&& split.ensures(
            (index, direction, valid, (before.complexes, before.buffers)),
            ((after.complexes, after.buffers), outcome),
        )
    }
}

/// Does a part of an exchange of the values in `at`.
pub fn half_part<R, E, YR: Fn(usize, Direction, Option<bool>, Load<R, N, M>) -> (Load<R, N, M>, Result<(), OverlapError<E>>), YC: Fn(usize, Direction, Option<bool>, Load<Complex<R>, N, M>) -> (Load<Complex<R>, N, M>, Result<(), OverlapError<E>>), const N: usize, const M: usize>(
    real_split: &YR,
    split: &YC,
    direction: Direction,
    index: usize,
    at: Slot,
    valid: Option<bool>,
    load: HalfLoad<R, N, M>,
) -> (result: (HalfLoad<R, N, M>, Result<(), OverlapError<E>>))
    requires
        carries_split::<R, E, YR, N, M>(*real_split),
        carries_split::<Complex<R>, E, YC, N, M>(*split),
    ensures
        result.1 is Ok ==> result.0.serves(load),
        half_part_done::<R, E, YR, YC, N, M>(
            *real_split,
            *split,
            direction,
            index,
            at,
            valid,
            load,
            result.0,
            result.1,
        ),
{
    let HalfLoad { reals, real_buffers, complexes, buffers } = load;
    match at {
        Slot::Real => match (reals, real_buffers) {
            (Some(array), Some(used)) => {
                let given: Load<R, N, M> = (array, used);
                let ((moved, left), outcome): (
                    Load<R, N, M>,
                    Result<(), OverlapError<E>>,
                ) = real_split(index, direction, valid, given);
                assert(real_split.ensures((index, direction, valid, given), ((moved, left), outcome)));
                let after: HalfLoad<R, N, M> = HalfLoad {
                    reals: Some(moved),
                    real_buffers: Some(left),
                    complexes,
                    buffers,
                };
                match outcome {
                    Ok(done) => {
                        assert(outcome == Ok::<(), OverlapError<E>>(()));
                        (after, Ok(done))
                    },
                    Err(error) => (after, Err(error)),
                }
            },
            (reals, real_buffers) => (
                HalfLoad { reals, real_buffers, complexes, buffers },
                Err(OverlapError::CollectivePreconditionFailed),
            ),
        },
        _ => {
            let given: Load<Complex<R>, N, M> = (complexes, buffers);
            let ((moved, left), outcome): (
                Load<Complex<R>, N, M>,
                Result<(), OverlapError<E>>,
            ) = split(index, direction, valid, given);
            assert(split.ensures((index, direction, valid, given), ((moved, left), outcome)));
            let after: HalfLoad<R, N, M> = HalfLoad {
                reals,
                real_buffers,
                complexes: moved,
                buffers: left,
            };
            match outcome {
                Ok(done) => {
                    assert(outcome == Ok::<(), OverlapError<E>>(()));
                    (after, Ok(done))
                },
                Err(error) => (after, Err(error)),
            }
        },
    }
}

/// The one allocation of an in-place execution, and the buffers of its exchanges.
#[derive(Debug)]
pub struct SharedLoad<R, const N: usize, const M: usize> {
    /// The allocation.
    pub shared: SharedStorage<R, N, M>,
    /// The buffers of real exchanges, where there are any.
    pub real_buffers: Option<TransposeWorkspace<R>>,
    /// The buffers of complex exchanges.
    pub buffers: TransposeWorkspace<Complex<R>>,
}

/// A step fails because the values are not on the side that it works on.
pub open spec fn misplaced<E: Failure>(outcome: Result<(), E>) -> bool {
    outcome == Err::<(), E>(E::spec_of_fft(FftError::StorageLayoutMismatch))
}

/// What an exchange of the values in `at` comes to, in place.
pub open spec fn shared_carried<R, E: Failure, XR: Fn(usize, Passage, Load<R, N, M>) -> (Load<R, N, M>, Result<(), FftError>), XC: Fn(usize, Passage, Load<Complex<R>, N, M>) -> (Load<Complex<R>, N, M>, Result<(), FftError>), const N: usize, const M: usize>(
    real_exchange: XR,
    exchange: XC,
    transitions: Seq<Transition>,
    direction: Direction,
    index: usize,
    at: Slot,
    before: SharedLoad<R, N, M>,
    after: SharedLoad<R, N, M>,
    outcome: Result<(), E>,
) -> bool {
    &&& same_frame(before.shared, after.shared)
    &&& match (at, before.shared.storage) {
        (Slot::Real, Some(HalfComplexStorage::Real(array))) => {
            &&& after.buffers == before.buffers
            &&& match (before.real_buffers, after.real_buffers, after.shared.storage) {
                (
                    Some(buffers),
                    Some(used),
                    Some(HalfComplexStorage::Real(moved)),
                ) => carried::<R, E, XR, N, M>(
                    real_exchange,
                    transitions,
                    direction,
                    index,
                    (array, buffers),
                    (moved, used),
                    outcome,
                ),
                (Some(_), _, _) => false,
                _ => after == before && missing_array(outcome),
            }
        },
        (Slot::Complex, Some(HalfComplexStorage::Complex(array))) => {
            &&& after.real_buffers == before.real_buffers
            &&& after.shared.storage matches Some(HalfComplexStorage::Complex(moved)) && carried::<
                Complex<R>,
                E,
                XC,
                N,
                M,
            >(
                exchange,
                transitions,
                direction,
                index,
                (array, before.buffers),
                (moved, after.buffers),
                outcome,
            )
        },
        _ => after == before && misplaced(outcome),
    }
}

/// Exchanges the values in `at`, in place.
pub fn shared_carry<R, E: Failure, XR: Fn(usize, Passage, Load<R, N, M>) -> (Load<R, N, M>, Result<(), FftError>), XC: Fn(usize, Passage, Load<Complex<R>, N, M>) -> (Load<Complex<R>, N, M>, Result<(), FftError>), const N: usize, const M: usize>(
    real_exchange: &XR,
    exchange: &XC,
    transitions: &Vec<Transition>,
    direction: Direction,
    index: usize,
    at: Slot,
    load: SharedLoad<R, N, M>,
) -> (result: (SharedLoad<R, N, M>, Result<(), E>))
    requires
        carries::<R, XR, N, M>(*real_exchange),
        carries::<Complex<R>, XC, N, M>(*exchange),
    ensures
        result.1 is Ok && shared_wf(load.shared) ==> {
            &&& shared_wf(result.0.shared)
            &&& load.shared.storage matches Some(HalfComplexStorage::Complex(array)) ==> {
                &&& result.0.shared.storage matches Some(HalfComplexStorage::Complex(moved))
                &&& moved.pencils == array.pencils
            }
            &&& !(load.shared.storage matches Some(HalfComplexStorage::Complex(_)))
                ==> !(result.0.shared.storage matches Some(HalfComplexStorage::Complex(_)))
        },
        shared_carried::<R, E, XR, XC, N, M>(
            *real_exchange,
            *exchange,
            transitions@,
            direction,
            index,
            at,
            load,
            result.0,
            result.1,
        ),
{
    let SharedLoad { shared, real_buffers, buffers } = load;
    let mut shared: SharedStorage<R, N, M> = shared;
    match (at, shared.storage) {
        (Slot::Real, Some(HalfComplexStorage::Real(array))) => match real_buffers {
            Some(used) => {
                let ((moved, left), outcome): (Load<R, N, M>, Result<(), E>) = carry(
                    real_exchange,
                    transitions,
                    direction,
                    index,
                    (array, used),
                );
                shared.storage = Some(HalfComplexStorage::Real(moved));
                (SharedLoad { shared, real_buffers: Some(left), buffers }, outcome)
            },
            None => {
                shared.storage = Some(HalfComplexStorage::Real(array));
                (
                    SharedLoad { shared, real_buffers: None, buffers },
                    Err(E::of_fft(FftError::WorkspaceMismatch)),
                )
            },
        },
        (Slot::Complex, Some(HalfComplexStorage::Complex(array))) => {
            let ((moved, left), outcome): (Load<Complex<R>, N, M>, Result<(), E>) = carry(
                exchange,
                transitions,
                direction,
                index,
                (array, buffers),
            );
            shared.storage = Some(HalfComplexStorage::Complex(moved));
            (SharedLoad { shared, real_buffers, buffers: left }, outcome)
        },
        (_, storage) => {
            shared.storage = storage;
            (
                SharedLoad { shared, real_buffers, buffers },
                Err(E::of_fft(FftError::StorageLayoutMismatch)),
            )
        },
    }
}

/// What an exchange of the values in `at` comes to, in place, where real values are taken out of the
/// allocation for it: they are put back only if it succeeds.
pub open spec fn lent_carried<R, E: Failure, XR: Fn(usize, Passage, Load<R, N, M>) -> (Load<R, N, M>, Result<(), FftError>), XC: Fn(usize, Passage, Load<Complex<R>, N, M>) -> (Load<Complex<R>, N, M>, Result<(), FftError>), const N: usize, const M: usize>(
    real_exchange: XR,
    exchange: XC,
    transitions: Seq<Transition>,
    direction: Direction,
    index: usize,
    at: Slot,
    before: SharedLoad<R, N, M>,
    after: SharedLoad<R, N, M>,
    outcome: Result<(), E>,
) -> bool {
    match outcome {
        Ok(_) => shared_carried::<R, E, XR, XC, N, M>(
            real_exchange,
            exchange,
            transitions,
            direction,
            index,
            at,
            before,
            after,
            Ok(()),
        ),
        Err(_) => exists|left: SharedLoad<R, N, M>| #[trigger]
            shared_carried::<R, E, XR, XC, N, M>(
                real_exchange,
                exchange,
                transitions,
                direction,
                index,
                at,
                before,
                left,
                outcome,
            ) && after == forfeited(at, left),
    }
}

/// What a failed exchange leaves of values that it had taken out.
pub open spec fn forfeited<R, const N: usize, const M: usize>(
    at: Slot,
    left: SharedLoad<R, N, M>,
) -> SharedLoad<R, N, M> {
    if at == Slot::Real {
        SharedLoad { shared: SharedStorage { storage: None, ..left.shared }, ..left }
    } else {
        left
    }
}

/// Exchanges the values in `at`, in place; real values are taken out for it, and put back only if it
/// succeeds.
pub fn lent_carry<R, E: Failure, XR: Fn(usize, Passage, Load<R, N, M>) -> (Load<R, N, M>, Result<(), FftError>), XC: Fn(usize, Passage, Load<Complex<R>, N, M>) -> (Load<Complex<R>, N, M>, Result<(), FftError>), const N: usize, const M: usize>(
    real_exchange: &XR,
    exchange: &XC,
    transitions: &Vec<Transition>,
    direction: Direction,
    index: usize,
    at: Slot,
    load: SharedLoad<R, N, M>,
) -> (result: (SharedLoad<R, N, M>, Result<(), E>))
    requires
        carries::<R, XR, N, M>(*real_exchange),
        carries::<Complex<R>, XC, N, M>(*exchange),
    ensures
        result.1 is Ok && shared_wf(load.shared) ==> {
            &&& shared_wf(result.0.shared)
            &&& load.shared.storage matches Some(HalfComplexStorage::Complex(array)) ==> {
                &&& result.0.shared.storage matches Some(HalfComplexStorage::Complex(moved))
                &&& moved.pencils == array.pencils
            }
            &&& !(load.shared.storage matches Some(HalfComplexStorage::Complex(_)))
                ==> !(result.0.shared.storage matches Some(HalfComplexStorage::Complex(_)))
        },
        lent_carried::<R, E, XR, XC, N, M>(
            *real_exchange,
            *exchange,
            transitions@,
            direction,
            index,
            at,
            load,
            result.0,
            result.1,
        ),
{
    let (left, outcome): (SharedLoad<R, N, M>, Result<(), E>) = shared_carry(
        real_exchange,
        exchange,
        transitions,
        direction,
        index,
        at,
        load,
    );
    match outcome {
        Ok(done) => {
            assert(outcome == Ok::<(), E>(()));
            (left, Ok(done))
        },
        Err(error) => {
            let ghost moved = left;
            let mut left: SharedLoad<R, N, M> = left;
            match at {
                Slot::Real => {
                    left.shared.storage = None;
                },
                _ => {},
            }
            assert(left == forfeited(at, moved));
            (left, Err(error))
        },
    }
}

} // verus!
