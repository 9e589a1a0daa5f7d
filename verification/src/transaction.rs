//! An execution in place as a transaction: it leaves the array as it was, done, or marked as
//! interrupted.

use vstd::prelude::*;

use crate::carrier::Load;
use crate::crew::Crew;
use crate::crew::InTurn;
use crate::crew::Pieces;
use crate::crew::all_done;
use crate::crew_mixed_c2c::MixedC2cInPlaceCrew;
use crate::crew_mixed_c2c::MixedC2cInPlaceTask;
use crate::crew_mixed_r2c_ip::MixedR2cInPlaceForwardCrew;
use crate::crew_mixed_r2c_ip::MixedR2cInPlaceReverseCrew;
use crate::crew_mixed_r2c_ip::MixedR2cInPlaceTask;
use crate::crew_r2c_ip::R2cInPlaceForwardCrew;
use crate::crew_r2c_ip::R2cInPlaceReverseCrew;
use crate::crew_r2c_ip::R2cInPlaceTask;
use crate::crew_r2r::R2rInPlaceCrew;
use crate::crew_r2r::R2rInPlaceTask;
use crate::error::ArrayError;
use crate::error::Failure;
use crate::error::FftError;
use crate::error::LocalC2cError;
use crate::error::LocalR2cError;
use crate::error::LocalR2rError;
use crate::error::MixedError;
use crate::error::R2cError;
use crate::error::R2rError;
use crate::inspect::Inspector;
use crate::layout::C2cState;
use crate::layout::Direction;
use crate::layout::R2cState;
use crate::layout::R2rState;
use crate::mixed_c2c::MixedC2cInPlaceArray;
use crate::mixed_c2c::MixedC2cInPlaceWorkspace;
use crate::mixed_c2c::c2c_state_before;
use crate::mixed_c2c::c2c_state_behind;
use crate::mixed_c2c::mixed_c2c_in_place_error;
use crate::mixed_r2c::MixedR2cInPlaceArray;
use crate::mixed_r2c::MixedR2cInPlaceWorkspace;
use crate::mixed_r2c::mixed_r2c_in_place_error;
use crate::r2c::R2cInPlaceArray;
use crate::r2c::R2cInPlaceWorkspace;
use crate::r2c::r2c_in_place_error;
use crate::r2c::r2c_state_before;
use crate::r2c::r2c_state_behind;
use crate::r2r::R2rInPlaceArray;
use crate::r2r::R2rInPlaceWorkspace;
use crate::r2r::r2r_in_place_error;
use crate::r2r::state_before;
use crate::r2r::state_behind;
use crate::run::Launch;
use crate::run::Transacted;
use crate::run::admission;
use crate::run::executed_in_place;
use crate::run::law_kept_by_pieces;
use crate::run::steps_run;
use crate::scalar::Complex;
use crate::scalar::FftReal;
use crate::scalar::R2rScalar;
use crate::schedule::Mode;
use crate::schedule::Step;
use crate::shared::complex_view_error;
use crate::shared::real_view_error;
use crate::stages::LocalError;
use crate::transition::Passage;
use crate::transition::eager_exchanges;
use crate::words::Operation;

verus! {

proof fn lemma_steps_keep<D, E, C: Crew<D, E>>(
    crew: C,
    steps: Seq<Step>,
    before: D,
    after: D,
    kept: spec_fn(D) -> bool,
)
    requires
        all_done::<D, E, C>(crew, steps, before, after),
        kept(before),
        forall|step: Step, from: D, to: D, local: Result<(), E>| #[trigger]
            crew.does(step, from, to, local) && kept(from) ==> kept(to),
    ensures
        kept(after),
    decreases steps.len(),
{
    if steps.len() > 0 {
        let between = choose|between: D|
            all_done::<D, E, C>(crew, steps.drop_last(), before, between) && #[trigger] crew.does(
                steps.last(),
                between,
                after,
                Ok(()),
            );
        lemma_steps_keep::<D, E, C>(crew, steps.drop_last(), before, between, kept);
    }
}

/// What each step of a crew keeps, its pieces keep.
proof fn lemma_pieces_keep<D, E: Failure, C: Crew<D, E>>(crew: C, kept: spec_fn(D) -> bool)
    requires
        forall|step: Step, from: D, to: D, local: Result<(), E>| #[trigger]
            crew.does(step, from, to, local) && kept(from) ==> kept(to),
    ensures
        forall|piece: Seq<Step>, from: D, to: D, local: Result<(), E>| #[trigger]
            (InTurn { crew: &crew }).done(piece, from, to, local) && kept(from) ==> kept(to),
{
    let pieces = InTurn { crew: &crew };
    assert forall|piece: Seq<Step>, from: D, to: D, local: Result<(), E>| #[trigger]
        pieces.done(piece, from, to, local) && kept(from) implies kept(to) by {
        match local {
            Ok(_) => {
                lemma_steps_keep::<D, E, C>(crew, piece, from, to, kept);
            },
            Err(error) => {
                let (at, between) = choose|at: int, between: D|
                    {
                        &&& 0 <= at < piece.len()
                        &&& all_done::<D, E, C>(crew, piece.take(at), from, between)
                        &&& #[trigger] crew.does(piece[at], between, to, Err(error))
                    };
                lemma_steps_keep::<D, E, C>(crew, piece.take(at), from, between, kept);
            },
        }
    }
}

/// The processes find that they execute the same plan.
pub open spec fn plan_shared<Q: Fn(u64, &Vec<u64>) -> Result<(), FftError>>(
    same_plan: Q,
    operation: u64,
    words: Vec<u64>,
) -> bool {
    forall|found: Result<(), FftError>| #[trigger]
        same_plan.ensures((operation, &words), found) ==> found is Ok
}

/// An execution in place, whose steps keep a mark, leaves all as it was and fails, or is done, or
/// leaves the mark. What is wrong with its arguments is what it fails with, unless the plans differ.
pub proof fn law_in_place_transaction<X: Transacted, W, E: Failure, Q: Fn(u64, &Vec<u64>) -> Result<(), FftError>, C: Crew<(X, W), E>, A: Fn(bool) -> bool>(
    launch: Launch<E>,
    words: Vec<u64>,
    same_plan: Q,
    agree: A,
    crew: C,
    before: (X, W),
    after: (X, W),
    outcome: Result<(), E>,
    marked: spec_fn(X) -> bool,
)
    requires
        executed_in_place(
            launch,
            words,
            same_plan,
            agree,
            InTurn { crew: &crew },
            before,
            after,
            outcome,
        ),
        marked(before.0.interrupted()),
        forall|step: Step, from: (X, W), to: (X, W), local: Result<(), E>| #[trigger]
            crew.does(step, from, to, local) && marked(from.0) ==> marked(to.0),
    ensures
        match outcome {
            Ok(_) => launch.preflight is Ok && exists|left: X| #[trigger]
                marked(left) && after.0 == left.completed(launch.direction),
            Err(error) => {
                ||| after == before && admission(launch, words, same_plan, agree, outcome)
                ||| marked(after.0) && launch.preflight is Ok
            },
        },
        launch.preflight matches Err(fault) ==> after == before && outcome is Err && (plan_shared(
            same_plan,
            launch.operation,
            words,
        ) ==> outcome == Err::<(), E>(fault)),
{
    let pieces = InTurn { crew: &crew };
    let kept = |state: (X, W)| marked(state.0);
    lemma_pieces_keep::<(X, W), E, C>(crew, kept);
    if !(outcome is Err && admission(launch, words, same_plan, agree, outcome) && after == before) {
        let left = choose|left: (X, W)| #[trigger]
            steps_run(
                pieces,
                agree,
                launch.steps@,
                (before.0.interrupted(), before.1),
                left,
                outcome,
            ) && after == if outcome is Ok {
                (left.0.completed(launch.direction), left.1)
            } else {
                left
            };
        law_kept_by_pieces::<(X, W), E, InTurn<C>, A>(
            pieces,
            agree,
            launch.steps@,
            (before.0.interrupted(), before.1),
            left,
            outcome,
            kept,
        );
        assert(marked(left.0));
    }
}

/// An execution of a real-to-real or Hartley plan in place takes the array from the state in front
/// of it to the state behind it, or leaves all as it was, or leaves the array marked as
/// interrupted; an array that is marked so is refused and stays as it is.
pub proof fn law_r2r_in_place_transaction<T: R2rScalar, F: Fn(&[T], usize) -> Result<Vec<T>, LocalR2rError>, X: Fn(usize, Passage, Load<T, N, M>) -> (Load<T, N, M>, Result<(), FftError>), Q: Fn(u64, &Vec<u64>) -> Result<(), FftError>, A: Fn(bool) -> bool, const N: usize, const M: usize>(
    crew: R2rInPlaceCrew<F, X, N, M>,
    operation: Operation,
    launch: Launch<R2rError>,
    same_plan: Q,
    agree: A,
    before: R2rInPlaceTask<T, N, M>,
    after: R2rInPlaceTask<T, N, M>,
    outcome: Result<(), R2rError>,
)
    requires
        launch.describes(
            operation,
            crew.direction,
            r2r_in_place_error(*crew.core, crew.direction, before.0, before.1),
            crew.core.itinerary().list(
                crew.direction,
                Mode::InPlace,
                eager_exchanges(crew.core.transitions@, crew.direction),
            ),
        ),
        executed_in_place(
            launch,
            crew.core.descriptor,
            same_plan,
            agree,
            InTurn { crew: &crew },
            before,
            after,
            outcome,
        ),
    ensures
        outcome is Ok ==> before.0.state == state_before(crew.direction) && after.0.state
            == state_behind(crew.direction) && after.0.core == before.0.core,
        outcome is Err ==> (after == before && admission(
            launch,
            crew.core.descriptor,
            same_plan,
            agree,
            outcome,
        )) || (after.0.state == R2rState::Poisoned && after.0.core == before.0.core),
        r2r_in_place_error(*crew.core, crew.direction, before.0, before.1) matches Some(fault) ==> after == before
            && outcome is Err && (plan_shared(same_plan, launch.operation, crew.core.descriptor)
            ==> outcome == Err::<(), R2rError>(R2rError::Fft(fault))),
        before.0.state == R2rState::Poisoned ==> after == before && outcome is Err && (plan_shared(
            same_plan,
            launch.operation,
            crew.core.descriptor,
        ) && before.0.core == crew.core.id && before.1.core == crew.core.id ==> outcome == Err::<
            (),
            R2rError,
        >(R2rError::Fft(FftError::Array(ArrayError::Poisoned)))),
{
    let array = before.0;
    let marked = |left: R2rInPlaceArray<T, N, M>|
        left.state == R2rState::Poisoned && left.core == array.core;
    law_in_place_transaction::<R2rInPlaceArray<T, N, M>, R2rInPlaceWorkspace<T, N, M>, R2rError, Q, R2rInPlaceCrew<F, X, N, M>, A>(
        launch,
        crew.core.descriptor,
        same_plan,
        agree,
        crew,
        before,
        after,
        outcome,
        marked,
    );
}

/// An execution of a mixed complex plan in place takes the array from the state in front of it
/// to the state behind it, or leaves all as it was, or leaves the array marked as interrupted;
/// an array that is marked so is refused and stays as it is.
pub proof fn law_mixed_c2c_in_place_transaction<R: FftReal, F: Fn(&[Complex<R>], usize) -> Result<Vec<Complex<R>>, LocalError>, X: Fn(usize, Passage, Load<Complex<R>, N, M>) -> (Load<Complex<R>, N, M>, Result<(), FftError>), Q: Fn(u64, &Vec<u64>) -> Result<(), FftError>, A: Fn(bool) -> bool, const N: usize, const M: usize>(
    crew: MixedC2cInPlaceCrew<F, X, N, M>,
    operation: Operation,
    launch: Launch<MixedError>,
    same_plan: Q,
    agree: A,
    before: MixedC2cInPlaceTask<R, N, M>,
    after: MixedC2cInPlaceTask<R, N, M>,
    outcome: Result<(), MixedError>,
)
    requires
        launch.describes(
            operation,
            crew.direction,
            mixed_c2c_in_place_error(*crew.core, crew.direction, before.0, before.1),
            crew.core.itinerary().list(
                crew.direction,
                Mode::InPlace,
                eager_exchanges(crew.core.transitions@, crew.direction),
            ),
        ),
        executed_in_place(
            launch,
            crew.core.descriptor,
            same_plan,
            agree,
            InTurn { crew: &crew },
            before,
            after,
            outcome,
        ),
    ensures
        outcome is Ok ==> before.0.state == c2c_state_before(crew.direction) && after.0.state
            == c2c_state_behind(crew.direction) && after.0.core == before.0.core,
        outcome is Err ==> (after == before && admission(
            launch,
            crew.core.descriptor,
            same_plan,
            agree,
            outcome,
        )) || (after.0.state == C2cState::Poisoned && after.0.core == before.0.core),
        mixed_c2c_in_place_error(*crew.core, crew.direction, before.0, before.1) matches Some(fault) ==> after == before
            && outcome is Err && (plan_shared(same_plan, launch.operation, crew.core.descriptor)
            ==> outcome == Err::<(), MixedError>(MixedError::Fft(fault))),
        before.0.state == C2cState::Poisoned ==> after == before && outcome is Err && (plan_shared(
            same_plan,
            launch.operation,
            crew.core.descriptor,
        ) && before.0.core == crew.core.id && before.1.core == crew.core.id ==> outcome == Err::<
            (),
            MixedError,
        >(MixedError::Fft(FftError::Array(ArrayError::Poisoned)))),
{
    let array = before.0;
    let marked = |left: MixedC2cInPlaceArray<R, N, M>|
        left.state == C2cState::Poisoned && left.core == array.core;
    law_in_place_transaction::<MixedC2cInPlaceArray<R, N, M>, MixedC2cInPlaceWorkspace<R, N, M>, MixedError, Q, MixedC2cInPlaceCrew<F, X, N, M>, A>(
        launch,
        crew.core.descriptor,
        same_plan,
        agree,
        crew,
        before,
        after,
        outcome,
        marked,
    );
}

/// An execution of a real-to-complex plan forward in place takes the array from the state in front
/// of it to the state behind it, or leaves all as it was, or leaves the array marked as
/// interrupted; neither side can be seen then, and an array that is marked so is refused and stays
/// as it is.
pub proof fn law_r2c_forward_transaction<R: FftReal, FX: Fn(&[R], usize) -> Result<Vec<Complex<R>>, LocalR2cError>, FC: Fn(&[Complex<R>], usize) -> Result<Vec<Complex<R>>, LocalC2cError>, XR: Fn(usize, Passage, Load<R, N, M>) -> (Load<R, N, M>, Result<(), FftError>), XC: Fn(usize, Passage, Load<Complex<R>, N, M>) -> (Load<Complex<R>, N, M>, Result<(), FftError>), Q: Fn(u64, &Vec<u64>) -> Result<(), FftError>, A: Fn(bool) -> bool, const N: usize, const M: usize>(
    crew: R2cInPlaceForwardCrew<FX, FC, XR, XC, N, M>,
    operation: Operation,
    capacity: usize,
    launch: Launch<R2cError>,
    same_plan: Q,
    agree: A,
    before: R2cInPlaceTask<R, N, M>,
    after: R2cInPlaceTask<R, N, M>,
    outcome: Result<(), R2cError>,
)
    requires
        launch.describes(
            operation,
            Direction::Forward,
            r2c_in_place_error(*crew.core, Direction::Forward, before.0, before.1, capacity),
            crew.core.itinerary().list(
                Direction::Forward,
                Mode::InPlace,
                eager_exchanges(crew.core.transitions@, Direction::Forward),
            ),
        ),
        executed_in_place(
            launch,
            crew.core.descriptor,
            same_plan,
            agree,
            InTurn { crew: &crew },
            before,
            after,
            outcome,
        ),
    ensures
        outcome is Ok ==> before.0.state == r2c_state_before(Direction::Forward) && after.0.state
            == r2c_state_behind(Direction::Forward) && after.0.core == before.0.core,
        outcome is Err ==> (after == before && admission(
            launch,
            crew.core.descriptor,
            same_plan,
            agree,
            outcome,
        )) || (after.0.state == R2cState::Poisoned && after.0.core == before.0.core),
        r2c_in_place_error(*crew.core, Direction::Forward, before.0, before.1, capacity) matches Some(fault) ==> after == before
            && outcome is Err && (plan_shared(same_plan, launch.operation, crew.core.descriptor)
            ==> outcome == Err::<(), R2cError>(R2cError::Fft(fault))),
        before.0.state == R2cState::Poisoned ==> after == before && outcome is Err && (plan_shared(
            same_plan,
            launch.operation,
            crew.core.descriptor,
        ) && before.0.core == crew.core.id && before.1.core == crew.core.id ==> outcome == Err::<
            (),
            R2cError,
        >(R2cError::Fft(FftError::Array(ArrayError::Poisoned)))),
        after.0.state == R2cState::Poisoned ==> real_view_error(after.0.state, after.0.shared) == Some(
            FftError::Array(ArrayError::Poisoned),
        ) && complex_view_error(after.0.state, after.0.shared) == Some(
            FftError::Array(ArrayError::Poisoned),
        ),
{
    let array = before.0;
    let marked = |left: R2cInPlaceArray<R, N, M>|
        left.state == R2cState::Poisoned && left.core == array.core;
    law_in_place_transaction::<R2cInPlaceArray<R, N, M>, R2cInPlaceWorkspace<R, N, M>, R2cError, Q, R2cInPlaceForwardCrew<FX, FC, XR, XC, N, M>, A>(
        launch,
        crew.core.descriptor,
        same_plan,
        agree,
        crew,
        before,
        after,
        outcome,
        marked,
    );
}

/// An execution of the way back of a real-to-complex plan in place takes the array from the state
/// in front of it to the state behind it, or leaves all as it was, or leaves the array marked as
/// interrupted; neither side can be seen then, and an array that is marked so is refused and stays
/// as it is.
pub proof fn law_r2c_reverse_transaction<R: FftReal, FX: Fn(&[Complex<R>], usize) -> Result<Vec<R>, LocalR2cError>, FC: Fn(&[Complex<R>], usize) -> Result<Vec<Complex<R>>, LocalC2cError>, XR: Fn(usize, Passage, Load<R, N, M>) -> (Load<R, N, M>, Result<(), FftError>), XC: Fn(usize, Passage, Load<Complex<R>, N, M>) -> (Load<Complex<R>, N, M>, Result<(), FftError>), V: Inspector<R, R2cError, N, M>, Q: Fn(u64, &Vec<u64>) -> Result<(), FftError>, A: Fn(bool) -> bool, const N: usize, const M: usize>(
    crew: R2cInPlaceReverseCrew<FX, FC, XR, XC, V, N, M>,
    operation: Operation,
    capacity: usize,
    launch: Launch<R2cError>,
    same_plan: Q,
    agree: A,
    before: R2cInPlaceTask<R, N, M>,
    after: R2cInPlaceTask<R, N, M>,
    outcome: Result<(), R2cError>,
)
    requires
        launch.describes(
            operation,
            crew.direction,
            r2c_in_place_error(*crew.core, crew.direction, before.0, before.1, capacity),
            crew.core.itinerary().list(
                crew.direction,
                Mode::InPlace,
                eager_exchanges(crew.core.transitions@, crew.direction),
            ),
        ),
        executed_in_place(
            launch,
            crew.core.descriptor,
            same_plan,
            agree,
            InTurn { crew: &crew },
            before,
            after,
            outcome,
        ),
    ensures
        outcome is Ok ==> before.0.state == r2c_state_before(crew.direction) && after.0.state
            == r2c_state_behind(crew.direction) && after.0.core == before.0.core,
        outcome is Err ==> (after == before && admission(
            launch,
            crew.core.descriptor,
            same_plan,
            agree,
            outcome,
        )) || (after.0.state == R2cState::Poisoned && after.0.core == before.0.core),
        r2c_in_place_error(*crew.core, crew.direction, before.0, before.1, capacity) matches Some(fault) ==> after == before
            && outcome is Err && (plan_shared(same_plan, launch.operation, crew.core.descriptor)
            ==> outcome == Err::<(), R2cError>(R2cError::Fft(fault))),
        before.0.state == R2cState::Poisoned ==> after == before && outcome is Err && (plan_shared(
            same_plan,
            launch.operation,
            crew.core.descriptor,
        ) && before.0.core == crew.core.id && before.1.core == crew.core.id ==> outcome == Err::<
            (),
            R2cError,
        >(R2cError::Fft(FftError::Array(ArrayError::Poisoned)))),
        after.0.state == R2cState::Poisoned ==> real_view_error(after.0.state, after.0.shared) == Some(
            FftError::Array(ArrayError::Poisoned),
        ) && complex_view_error(after.0.state, after.0.shared) == Some(
            FftError::Array(ArrayError::Poisoned),
        ),
{
    let array = before.0;
    let marked = |left: R2cInPlaceArray<R, N, M>|
        left.state == R2cState::Poisoned && left.core == array.core;
    law_in_place_transaction::<R2cInPlaceArray<R, N, M>, R2cInPlaceWorkspace<R, N, M>, R2cError, Q, R2cInPlaceReverseCrew<FX, FC, XR, XC, V, N, M>, A>(
        launch,
        crew.core.descriptor,
        same_plan,
        agree,
        crew,
        before,
        after,
        outcome,
        marked,
    );
}

/// An execution of a mixed real-to-complex plan forward in place takes the array from the state in
/// front of it to the state behind it, or leaves all as it was, or leaves the array marked as
/// interrupted; neither side can be seen then, and an array that is marked so is refused and stays
/// as it is.
pub proof fn law_mixed_r2c_forward_transaction<R: FftReal, FR: Fn(&[R], usize) -> Result<Vec<R>, LocalError>, FX: Fn(&[R], usize) -> Result<Vec<Complex<R>>, LocalError>, FC: Fn(&[Complex<R>], usize) -> Result<Vec<Complex<R>>, LocalError>, XR: Fn(usize, Passage, Load<R, N, M>) -> (Load<R, N, M>, Result<(), FftError>), XC: Fn(usize, Passage, Load<Complex<R>, N, M>) -> (Load<Complex<R>, N, M>, Result<(), FftError>), Q: Fn(u64, &Vec<u64>) -> Result<(), FftError>, A: Fn(bool) -> bool, const N: usize, const M: usize>(
    crew: MixedR2cInPlaceForwardCrew<FR, FX, FC, XR, XC, N, M>,
    operation: Operation,
    capacity: usize,
    launch: Launch<MixedError>,
    same_plan: Q,
    agree: A,
    before: MixedR2cInPlaceTask<R, N, M>,
    after: MixedR2cInPlaceTask<R, N, M>,
    outcome: Result<(), MixedError>,
)
    requires
        launch.describes(
            operation,
            Direction::Forward,
            mixed_r2c_in_place_error(*crew.core, Direction::Forward, before.0, before.1, capacity),
            crew.core.itinerary().list(
                Direction::Forward,
                Mode::InPlace,
                eager_exchanges(crew.core.transitions@, Direction::Forward),
            ),
        ),
        executed_in_place(
            launch,
            crew.core.descriptor,
            same_plan,
            agree,
            InTurn { crew: &crew },
            before,
            after,
            outcome,
        ),
    ensures
        outcome is Ok ==> before.0.state == r2c_state_before(Direction::Forward) && after.0.state
            == r2c_state_behind(Direction::Forward) && after.0.core == before.0.core,
        outcome is Err ==> (after == before && admission(
            launch,
            crew.core.descriptor,
            same_plan,
            agree,
            outcome,
        )) || (after.0.state == R2cState::Poisoned && after.0.core == before.0.core),
        mixed_r2c_in_place_error(*crew.core, Direction::Forward, before.0, before.1, capacity) matches Some(fault) ==> after == before
            && outcome is Err && (plan_shared(same_plan, launch.operation, crew.core.descriptor)
            ==> outcome == Err::<(), MixedError>(MixedError::Fft(fault))),
        before.0.state == R2cState::Poisoned ==> after == before && outcome is Err && (plan_shared(
            same_plan,
            launch.operation,
            crew.core.descriptor,
        ) && before.0.core == crew.core.id && before.1.core == crew.core.id ==> outcome == Err::<
            (),
            MixedError,
        >(MixedError::Fft(FftError::Array(ArrayError::Poisoned)))),
        after.0.state == R2cState::Poisoned ==> real_view_error(after.0.state, after.0.shared) == Some(
            FftError::Array(ArrayError::Poisoned),
        ) && complex_view_error(after.0.state, after.0.shared) == Some(
            FftError::Array(ArrayError::Poisoned),
        ),
{
    let array = before.0;
    let marked = |left: MixedR2cInPlaceArray<R, N, M>|
        left.state == R2cState::Poisoned && left.core == array.core;
    law_in_place_transaction::<MixedR2cInPlaceArray<R, N, M>, MixedR2cInPlaceWorkspace<R, N, M>, MixedError, Q, MixedR2cInPlaceForwardCrew<FR, FX, FC, XR, XC, N, M>, A>(
        launch,
        crew.core.descriptor,
        same_plan,
        agree,
        crew,
        before,
        after,
        outcome,
        marked,
    );
}

/// An execution of the way back of a mixed real-to-complex plan in place takes the array from the
/// state in front of it to the state behind it, or leaves all as it was, or leaves the array marked
/// as interrupted; neither side can be seen then, and an array that is marked so is refused and
/// stays as it is.
pub proof fn law_mixed_r2c_reverse_transaction<R: FftReal, FR: Fn(&[R], usize) -> Result<Vec<R>, LocalError>, FX: Fn(&[Complex<R>], usize) -> Result<Vec<R>, LocalError>, FC: Fn(&[Complex<R>], usize) -> Result<Vec<Complex<R>>, LocalError>, XR: Fn(usize, Passage, Load<R, N, M>) -> (Load<R, N, M>, Result<(), FftError>), XC: Fn(usize, Passage, Load<Complex<R>, N, M>) -> (Load<Complex<R>, N, M>, Result<(), FftError>), V: Inspector<R, MixedError, N, M>, Q: Fn(u64, &Vec<u64>) -> Result<(), FftError>, A: Fn(bool) -> bool, const N: usize, const M: usize>(
    crew: MixedR2cInPlaceReverseCrew<FR, FX, FC, XR, XC, V, N, M>,
    operation: Operation,
    capacity: usize,
    launch: Launch<MixedError>,
    same_plan: Q,
    agree: A,
    before: MixedR2cInPlaceTask<R, N, M>,
    after: MixedR2cInPlaceTask<R, N, M>,
    outcome: Result<(), MixedError>,
)
    requires
        launch.describes(
            operation,
            crew.direction,
            mixed_r2c_in_place_error(*crew.core, crew.direction, before.0, before.1, capacity),
            crew.core.itinerary().list(
                crew.direction,
                Mode::InPlace,
                eager_exchanges(crew.core.transitions@, crew.direction),
            ),
        ),
        executed_in_place(
            launch,
            crew.core.descriptor,
            same_plan,
            agree,
            InTurn { crew: &crew },
            before,
            after,
            outcome,
        ),
    ensures
        outcome is Ok ==> before.0.state == r2c_state_before(crew.direction) && after.0.state
            == r2c_state_behind(crew.direction) && after.0.core == before.0.core,
        outcome is Err ==> (after == before && admission(
            launch,
            crew.core.descriptor,
            same_plan,
            agree,
            outcome,
        )) || (after.0.state == R2cState::Poisoned && after.0.core == before.0.core),
        mixed_r2c_in_place_error(*crew.core, crew.direction, before.0, before.1, capacity) matches Some(fault) ==> after == before
            && outcome is Err && (plan_shared(same_plan, launch.operation, crew.core.descriptor)
            ==> outcome == Err::<(), MixedError>(MixedError::Fft(fault))),
        before.0.state == R2cState::Poisoned ==> after == before && outcome is Err && (plan_shared(
            same_plan,
            launch.operation,
            crew.core.descriptor,
        ) && before.0.core == crew.core.id && before.1.core == crew.core.id ==> outcome == Err::<
            (),
            MixedError,
        >(MixedError::Fft(FftError::Array(ArrayError::Poisoned)))),
        after.0.state == R2cState::Poisoned ==> real_view_error(after.0.state, after.0.shared) == Some(
            FftError::Array(ArrayError::Poisoned),
        ) && complex_view_error(after.0.state, after.0.shared) == Some(
            FftError::Array(ArrayError::Poisoned),
        ),
{
    let array = before.0;
    let marked = |left: MixedR2cInPlaceArray<R, N, M>|
        left.state == R2cState::Poisoned && left.core == array.core;
    law_in_place_transaction::<MixedR2cInPlaceArray<R, N, M>, MixedR2cInPlaceWorkspace<R, N, M>, MixedError, Q, MixedR2cInPlaceReverseCrew<FR, FX, FC, XR, XC, V, N, M>, A>(
        launch,
        crew.core.descriptor,
        same_plan,
        agree,
        crew,
        before,
        after,
        outcome,
        marked,
    );
}

} // verus!
