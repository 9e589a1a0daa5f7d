//! Executions and their way back: both succeed, and the values come back.

use vstd::prelude::*;

use crate::carrier::Load;
use crate::course::checks_pass;
use crate::crew::Crew;
use crate::crew::InTurn;
use crate::crew_mixed_c2c::MixedC2cCrew;
use crate::crew_mixed_c2c::MixedC2cTask;
use crate::crew_mixed_r2c::MixedR2cForwardCrew;
use crate::crew_mixed_r2c::MixedR2cForwardTask;
use crate::crew_mixed_r2c::MixedR2cReverseCrew;
use crate::crew_mixed_r2c::MixedR2cReverseTask;
use crate::crew_r2c::R2cForwardCrew;
use crate::crew_r2c::R2cForwardTask;
use crate::crew_r2c::R2cReverseCrew;
use crate::crew_r2c::R2cReverseTask;
use crate::crew_r2r::R2rCrew;
use crate::crew_r2r::R2rTask;
use crate::error::FftError;
use crate::error::LocalC2cError;
use crate::error::LocalR2cError;
use crate::error::LocalR2rError;
use crate::error::MixedError;
use crate::error::R2cError;
use crate::error::R2rError;
use crate::inspect::Inspector;
use crate::layout::Direction;
use crate::round_mixed_c2c::law_mixed_c2c_round_trip;
use crate::round_mixed_c2c::mixed_c2c_undone;
use crate::round_mixed_r2c::law_mixed_r2c_round_trip;
use crate::round_mixed_r2c::mixed_r2c_undone;
use crate::round_r2c::law_r2c_round_trip;
use crate::round_r2c::r2c_undone;
use crate::round_r2r::law_r2r_round_trip;
use crate::round_trip::exchanges_undone;
use crate::round_trip::kernels_undone;
use crate::run::Launch;
use crate::run::executed;
use crate::scalar::Complex;
use crate::scalar::FftReal;
use crate::scalar::R2rScalar;
use crate::schedule::Mode;
use crate::stages::LocalError;
use crate::succeed_mixed_c2c::law_mixed_c2c_succeeds;
use crate::succeed_mixed_c2c::mixed_c2c_owed;
use crate::succeed_mixed_r2c::law_mixed_r2c_forward_succeeds;
use crate::succeed_mixed_r2c::law_mixed_r2c_reverse_succeeds;
use crate::succeed_mixed_r2c::mixed_r2c_owed_home;
use crate::succeed_mixed_r2c::mixed_r2c_owed_there;
use crate::succeed_r2c::law_r2c_forward_succeeds;
use crate::succeed_r2c::law_r2c_reverse_succeeds;
use crate::succeed_r2c::r2c_owed_home;
use crate::succeed_r2c::r2c_owed_there;
use crate::succeed_r2r::law_r2r_succeeds;
use crate::succeed_r2r::r2r_owed;
use crate::success::ready;
use crate::transition::Passage;

verus! {

/// A forward execution of a real-to-real or Hartley plan out of place and a reverse one of what it
/// made, each of which starts on all processes and is owed success, succeed and give back the
/// values, with kernels and exchanges of which those of the second undo those of the first.
pub proof fn law_r2r_there_and_back<T: R2rScalar, F: Fn(&[T], usize) -> Result<Vec<T>, LocalR2rError>, G: Fn(&[T], usize) -> Result<Vec<T>, LocalR2rError>, X: Fn(usize, Passage, Load<T, N, M>) -> (Load<T, N, M>, Result<(), FftError>), Z: Fn(usize, Passage, Load<T, N, M>) -> (Load<T, N, M>, Result<(), FftError>), A: Fn(bool) -> bool, B: Fn(bool) -> bool, Q: Fn(u64, &Vec<u64>) -> Result<(), FftError>, const N: usize, const M: usize>(
    there: R2rCrew<T, F, X, N, M>,
    home: R2rCrew<T, G, Z, N, M>,
    launches: (Launch<R2rError>, Launch<R2rError>),
    same_plan: Q,
    agree: (A, B),
    eager: (Seq<bool>, Seq<bool>),
    start: R2rTask<T, N, M>,
    turn: R2rTask<T, N, M>,
    from: R2rTask<T, N, M>,
    end: R2rTask<T, N, M>,
    outcomes: (Result<(), R2rError>, Result<(), R2rError>),
)
    requires
        there.able(),
        home.able(),
        *home.core == *there.core,
        there.direction == Direction::Forward,
        home.direction != Direction::Forward,
        kernels_undone::<T, LocalR2rError, F, G>(there.kernels@, home.kernels@),
        exchanges_undone::<T, X, Z, N, M>(
            *there.exchange,
            *home.exchange,
            there.core.transitions@,
            home.direction,
        ),
        home.source.data@ == turn.0.data@,
        launches.0.steps@ == there.core.itinerary().list(
            Direction::Forward,
            Mode::OutOfPlace,
            eager.0,
        ),
        launches.1.steps@ == there.core.itinerary().list(
            home.direction,
            Mode::OutOfPlace,
            eager.1,
        ),
        ready(launches.0, there.core.descriptor, same_plan, agree.0),
        ready(launches.1, there.core.descriptor, same_plan, agree.1),
        r2r_owed(there, start),
        r2r_owed(home, from),
        executed(
            launches.0,
            there.core.descriptor,
            same_plan,
            agree.0,
            InTurn { crew: &there },
            start,
            turn,
            outcomes.0,
        ),
        executed(
            launches.1,
            there.core.descriptor,
            same_plan,
            agree.1,
            InTurn { crew: &home },
            from,
            end,
            outcomes.1,
        ),
    ensures
        outcomes.0 is Ok,
        outcomes.1 is Ok,
        end.0.data@ == there.source.data@,
{
    law_r2r_succeeds(there, launches.0, same_plan, agree.0, eager.0, start, turn, outcomes.0);
    law_r2r_succeeds(home, launches.1, same_plan, agree.1, eager.1, from, end, outcomes.1);
    match outcomes.0 {
        Ok(done) => {
            assert(outcomes.0 == Ok::<(), R2rError>(()));
        },
        Err(_) => {},
    }
    match outcomes.1 {
        Ok(done) => {
            assert(outcomes.1 == Ok::<(), R2rError>(()));
        },
        Err(_) => {},
    }
    law_r2r_round_trip::<T, F, G, X, Z, A, B, N, M>(there, home, agree, eager, start, turn, from, end);
}

/// A forward execution of a mixed complex plan out of place and a reverse one of what it made, each
/// of which starts on all processes and is owed success, succeed and give back the values, with
/// kernels and exchanges of which those of the second undo those of the first.
pub proof fn law_mixed_c2c_there_and_back<R: FftReal, F: Fn(&[Complex<R>], usize) -> Result<Vec<Complex<R>>, LocalError>, G: Fn(&[Complex<R>], usize) -> Result<Vec<Complex<R>>, LocalError>, X: Fn(usize, Passage, Load<Complex<R>, N, M>) -> (Load<Complex<R>, N, M>, Result<(), FftError>), Z: Fn(usize, Passage, Load<Complex<R>, N, M>) -> (Load<Complex<R>, N, M>, Result<(), FftError>), A: Fn(bool) -> bool, B: Fn(bool) -> bool, Q: Fn(u64, &Vec<u64>) -> Result<(), FftError>, const N: usize, const M: usize>(
    there: MixedC2cCrew<R, F, X, N, M>,
    home: MixedC2cCrew<R, G, Z, N, M>,
    launches: (Launch<MixedError>, Launch<MixedError>),
    same_plan: Q,
    agree: (A, B),
    eager: (Seq<bool>, Seq<bool>),
    start: MixedC2cTask<R, N, M>,
    turn: MixedC2cTask<R, N, M>,
    from: MixedC2cTask<R, N, M>,
    end: MixedC2cTask<R, N, M>,
    outcomes: (Result<(), MixedError>, Result<(), MixedError>),
)
    requires
        there.able(),
        home.able(),
        mixed_c2c_undone::<R, F, G, X, Z, N, M>(there, home),
        home.source.data@ == turn.0.data@,
        launches.0.steps@ == there.core.itinerary().list(
            Direction::Forward,
            Mode::OutOfPlace,
            eager.0,
        ),
        launches.1.steps@ == there.core.itinerary().list(
            home.direction,
            Mode::OutOfPlace,
            eager.1,
        ),
        ready(launches.0, there.core.descriptor, same_plan, agree.0),
        ready(launches.1, there.core.descriptor, same_plan, agree.1),
        mixed_c2c_owed(there, start),
        mixed_c2c_owed(home, from),
        executed(
            launches.0,
            there.core.descriptor,
            same_plan,
            agree.0,
            InTurn { crew: &there },
            start,
            turn,
            outcomes.0,
        ),
        executed(
            launches.1,
            there.core.descriptor,
            same_plan,
            agree.1,
            InTurn { crew: &home },
            from,
            end,
            outcomes.1,
        ),
    ensures
        outcomes.0 is Ok,
        outcomes.1 is Ok,
        end.0.data@ == there.source.data@,
{
    law_mixed_c2c_succeeds(there, launches.0, same_plan, agree.0, eager.0, start, turn, outcomes.0);
    law_mixed_c2c_succeeds(home, launches.1, same_plan, agree.1, eager.1, from, end, outcomes.1);
    match outcomes.0 {
        Ok(done) => {
            assert(outcomes.0 == Ok::<(), MixedError>(()));
        },
        Err(_) => {},
    }
    match outcomes.1 {
        Ok(done) => {
            assert(outcomes.1 == Ok::<(), MixedError>(()));
        },
        Err(_) => {},
    }
    law_mixed_c2c_round_trip::<R, F, G, X, Z, A, B, N, M>(there, home, agree, eager, start, turn, from, end);
}

/// A forward execution of a real-to-complex plan out of place and a reverse one of what it made,
/// each of which starts on all processes and is owed success, succeed and give back the values,
/// with kernels and exchanges of which those of the second undo those of the first.
pub proof fn law_r2c_there_and_back<R: FftReal, FX: Fn(&[R], usize) -> Result<Vec<Complex<R>>, LocalR2cError>, GX: Fn(&[Complex<R>], usize) -> Result<Vec<R>, LocalR2cError>, FC: Fn(&[Complex<R>], usize) -> Result<Vec<Complex<R>>, LocalC2cError>, GC: Fn(&[Complex<R>], usize) -> Result<Vec<Complex<R>>, LocalC2cError>, XR: Fn(usize, Passage, Load<R, N, M>) -> (Load<R, N, M>, Result<(), FftError>), XC: Fn(usize, Passage, Load<Complex<R>, N, M>) -> (Load<Complex<R>, N, M>, Result<(), FftError>), ZR: Fn(usize, Passage, Load<R, N, M>) -> (Load<R, N, M>, Result<(), FftError>), ZC: Fn(usize, Passage, Load<Complex<R>, N, M>) -> (Load<Complex<R>, N, M>, Result<(), FftError>), V: Inspector<R, R2cError, N, M>, A: Fn(bool) -> bool, B: Fn(bool) -> bool, Q: Fn(u64, &Vec<u64>) -> Result<(), FftError>, const N: usize, const M: usize>(
    there: R2cForwardCrew<R, FX, FC, XR, XC, N, M>,
    home: R2cReverseCrew<R, GX, GC, ZR, ZC, V, N, M>,
    launches: (Launch<R2cError>, Launch<R2cError>),
    same_plan: Q,
    agree: (A, B),
    eager: (Seq<bool>, Seq<bool>),
    start: R2cForwardTask<R, N, M>,
    turn: R2cForwardTask<R, N, M>,
    from: R2cReverseTask<R, N, M>,
    end: R2cReverseTask<R, N, M>,
    outcomes: (Result<(), R2cError>, Result<(), R2cError>),
    reached: spec_fn(int, R2cReverseTask<R, N, M>) -> bool,
)
    requires
        there.able(),
        home.able(),
        r2c_undone::<R, FX, GX, FC, GC, XR, XC, ZR, ZC, V, N, M>(there, home),
        home.source.data@ == turn.0.data@,
        launches.0.steps@ == there.core.itinerary().list(
            Direction::Forward,
            Mode::OutOfPlace,
            eager.0,
        ),
        launches.1.steps@ == there.core.itinerary().list(
            home.direction,
            Mode::OutOfPlace,
            eager.1,
        ),
        ready(launches.0, there.core.descriptor, same_plan, agree.0),
        ready(launches.1, there.core.descriptor, same_plan, agree.1),
        r2c_owed_there(there, start),
        r2c_owed_home(home, from),
        checks_pass::<R2cReverseTask<R, N, M>, R2cError, R2cReverseCrew<R, GX, GC, ZR, ZC, V, N, M>>(home, launches.1.steps@, reached),
        reached(0, from),
        executed(
            launches.0,
            there.core.descriptor,
            same_plan,
            agree.0,
            InTurn { crew: &there },
            start,
            turn,
            outcomes.0,
        ),
        executed(
            launches.1,
            there.core.descriptor,
            same_plan,
            agree.1,
            InTurn { crew: &home },
            from,
            end,
            outcomes.1,
        ),
    ensures
        outcomes.0 is Ok,
        outcomes.1 is Ok,
        end.0.data@ == there.source.data@,
{
    law_r2c_forward_succeeds(there, launches.0, same_plan, agree.0, eager.0, start, turn, outcomes.0);
    law_r2c_reverse_succeeds(home, launches.1, same_plan, agree.1, eager.1, from, end, outcomes.1, reached);
    match outcomes.0 {
        Ok(done) => {
            assert(outcomes.0 == Ok::<(), R2cError>(()));
        },
        Err(_) => {},
    }
    match outcomes.1 {
        Ok(done) => {
            assert(outcomes.1 == Ok::<(), R2cError>(()));
        },
        Err(_) => {},
    }
    law_r2c_round_trip::<R, FX, GX, FC, GC, XR, XC, ZR, ZC, V, A, B, N, M>(there, home, agree, eager, start, turn, from, end);
}

/// A forward execution of a mixed real-to-complex plan out of place and a reverse one of what it
/// made, each of which starts on all processes and is owed success, succeed and give back the
/// values, with kernels and exchanges of which those of the second undo those of the first.
pub proof fn law_mixed_r2c_there_and_back<R: FftReal, FR: Fn(&[R], usize) -> Result<Vec<R>, LocalError>, GR: Fn(&[R], usize) -> Result<Vec<R>, LocalError>, FX: Fn(&[R], usize) -> Result<Vec<Complex<R>>, LocalError>, GX: Fn(&[Complex<R>], usize) -> Result<Vec<R>, LocalError>, FC: Fn(&[Complex<R>], usize) -> Result<Vec<Complex<R>>, LocalError>, GC: Fn(&[Complex<R>], usize) -> Result<Vec<Complex<R>>, LocalError>, XR: Fn(usize, Passage, Load<R, N, M>) -> (Load<R, N, M>, Result<(), FftError>), XC: Fn(usize, Passage, Load<Complex<R>, N, M>) -> (Load<Complex<R>, N, M>, Result<(), FftError>), ZR: Fn(usize, Passage, Load<R, N, M>) -> (Load<R, N, M>, Result<(), FftError>), ZC: Fn(usize, Passage, Load<Complex<R>, N, M>) -> (Load<Complex<R>, N, M>, Result<(), FftError>), V: Inspector<R, MixedError, N, M>, A: Fn(bool) -> bool, B: Fn(bool) -> bool, Q: Fn(u64, &Vec<u64>) -> Result<(), FftError>, const N: usize, const M: usize>(
    there: MixedR2cForwardCrew<R, FR, FX, FC, XR, XC, N, M>,
    home: MixedR2cReverseCrew<R, GR, GX, GC, ZR, ZC, V, N, M>,
    launches: (Launch<MixedError>, Launch<MixedError>),
    same_plan: Q,
    agree: (A, B),
    eager: (Seq<bool>, Seq<bool>),
    start: MixedR2cForwardTask<R, N, M>,
    turn: MixedR2cForwardTask<R, N, M>,
    from: MixedR2cReverseTask<R, N, M>,
    end: MixedR2cReverseTask<R, N, M>,
    outcomes: (Result<(), MixedError>, Result<(), MixedError>),
    reached: spec_fn(int, MixedR2cReverseTask<R, N, M>) -> bool,
)
    requires
        there.able(),
        home.able(),
        mixed_r2c_undone::<R, FR, GR, FX, GX, FC, GC, XR, XC, ZR, ZC, V, N, M>(there, home),
        home.source.data@ == turn.0.data@,
        launches.0.steps@ == there.core.itinerary().list(
            Direction::Forward,
            Mode::OutOfPlace,
            eager.0,
        ),
        launches.1.steps@ == there.core.itinerary().list(
            home.direction,
            Mode::OutOfPlace,
            eager.1,
        ),
        ready(launches.0, there.core.descriptor, same_plan, agree.0),
        ready(launches.1, there.core.descriptor, same_plan, agree.1),
        mixed_r2c_owed_there(there, start),
        mixed_r2c_owed_home(home, from),
        checks_pass::<MixedR2cReverseTask<R, N, M>, MixedError, MixedR2cReverseCrew<R, GR, GX, GC, ZR, ZC, V, N, M>>(home, launches.1.steps@, reached),
        reached(0, from),
        executed(
            launches.0,
            there.core.descriptor,
            same_plan,
            agree.0,
            InTurn { crew: &there },
            start,
            turn,
            outcomes.0,
        ),
        executed(
            launches.1,
            there.core.descriptor,
            same_plan,
            agree.1,
            InTurn { crew: &home },
            from,
            end,
            outcomes.1,
        ),
    ensures
        outcomes.0 is Ok,
        outcomes.1 is Ok,
        end.0.data@ == there.source.data@,
{
    law_mixed_r2c_forward_succeeds(there, launches.0, same_plan, agree.0, eager.0, start, turn, outcomes.0);
    law_mixed_r2c_reverse_succeeds(home, launches.1, same_plan, agree.1, eager.1, from, end, outcomes.1, reached);
    match outcomes.0 {
        Ok(done) => {
            assert(outcomes.0 == Ok::<(), MixedError>(()));
        },
        Err(_) => {},
    }
    match outcomes.1 {
        Ok(done) => {
            assert(outcomes.1 == Ok::<(), MixedError>(()));
        },
        Err(_) => {},
    }
    law_mixed_r2c_round_trip::<R, FR, GR, FX, GX, FC, GC, XR, XC, ZR, ZC, V, A, B, N, M>(there, home, agree, eager, start, turn, from, end);
}

} // verus!
