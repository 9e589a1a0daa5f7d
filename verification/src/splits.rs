//! Exchanges that are overlapped with kernels are done in two parts.

use vstd::prelude::*;

use crate::carrier::Load;
use crate::crew::Crew;
use crate::crew::OverlapCrew;
use crate::crew_mixed_c2c::MixedC2cOverlapCrew;
use crate::crew_mixed_c2c::MixedC2cTask;
use crate::crew_mixed_r2c::MixedR2cForwardOverlapCrew;
use crate::crew_mixed_r2c::MixedR2cForwardTask;
use crate::crew_mixed_r2c::MixedR2cReverseOverlapCrew;
use crate::crew_mixed_r2c::MixedR2cReverseTask;
use crate::crew_r2c::R2cForwardOverlapCrew;
use crate::crew_r2c::R2cForwardTask;
use crate::crew_r2c::R2cReverseOverlapCrew;
use crate::crew_r2c::R2cReverseTask;
use crate::error::Failure;
use crate::error::FftError;
use crate::error::LocalC2cError;
use crate::error::LocalR2cError;
use crate::error::MixedError;
use crate::error::OverlapError;
use crate::error::R2cError;
use crate::inspect::Inspector;
use crate::layout::Direction;
use crate::scalar::Complex;
use crate::scalar::FftReal;
use crate::schedule::Step;
use crate::stages::LocalError;
use crate::transition::ExchangeKind;
use crate::transition::Passage;

verus! {

/// The two parts of an exchange that a mixed complex plan overlaps with kernels: it is split
/// exactly where processes send to each other one by one; its first part is asked for before
/// the kernels and its second behind them, in the direction of the execution, and only for the
/// values that it is about. Steps outside exchanges are done as in an execution without
/// overlap.
pub proof fn law_mixed_c2c_splits<R: FftReal, F: Fn(&[Complex<R>], usize) -> Result<Vec<Complex<R>>, LocalError>, X: Fn(usize, Passage, Load<Complex<R>, N, M>) -> (Load<Complex<R>, N, M>, Result<(), FftError>), Y: Fn(usize, Direction, Option<bool>, Load<Complex<R>, N, M>) -> (Load<Complex<R>, N, M>, Result<(), OverlapError<MixedError>>), const N: usize, const M: usize>(
    crew: MixedC2cOverlapCrew<R, F, X, Y, N, M>,
    index: usize,
    before: MixedC2cTask<R, N, M>,
    after: MixedC2cTask<R, N, M>,
    step: Step,
    outcome: Result<(), MixedError>,
)
    ensures
        crew.spec_eager(index) <==> index < crew.crew.core.transitions@.len() && (match crew.crew.direction {
            Direction::Forward => crew.crew.core.transitions@[index as int].forward,
            _ => crew.crew.core.transitions@[index as int].backward,
        }) == ExchangeKind::PointToPoint,
        crew.does(step, before, after, outcome) <==> crew.crew.does(step, before, after, outcome),
        crew.lands(index, before, after, Ok(())) ==> after.0 == before.0 && crew.split.ensures(
            (index, crew.crew.direction, None::<bool>, (before.1.intermediate, before.1.transpose)),
            ((after.1.intermediate, after.1.transpose), Ok(())),
        ),
        crew.settles(index, true, before, after, Ok(())) ==> after.0 == before.0 && crew.split.ensures(
            (index, crew.crew.direction, Some(true), (before.1.intermediate, before.1.transpose)),
            ((after.1.intermediate, after.1.transpose), Ok(())),
        ),
{
}

/// The two parts of an exchange that a real-to-complex plan overlaps with kernels: it is split
/// exactly where processes send to each other one by one; its first part is asked for before
/// the kernels and its second behind them, in the direction of the execution, and only for the
/// values that it is about. Steps outside exchanges are done as in an execution without
/// overlap.
pub proof fn law_r2c_forward_splits<R: FftReal, FX: Fn(&[R], usize) -> Result<Vec<Complex<R>>, LocalR2cError>, FC: Fn(&[Complex<R>], usize) -> Result<Vec<Complex<R>>, LocalC2cError>, XR: Fn(usize, Passage, Load<R, N, M>) -> (Load<R, N, M>, Result<(), FftError>), XC: Fn(usize, Passage, Load<Complex<R>, N, M>) -> (Load<Complex<R>, N, M>, Result<(), FftError>), YR: Fn(usize, Direction, Option<bool>, Load<R, N, M>) -> (Load<R, N, M>, Result<(), OverlapError<R2cError>>), YC: Fn(usize, Direction, Option<bool>, Load<Complex<R>, N, M>) -> (Load<Complex<R>, N, M>, Result<(), OverlapError<R2cError>>), const N: usize, const M: usize>(
    crew: R2cForwardOverlapCrew<R, FX, FC, XR, XC, YR, YC, N, M>,
    index: usize,
    before: R2cForwardTask<R, N, M>,
    after: R2cForwardTask<R, N, M>,
    step: Step,
    outcome: Result<(), R2cError>,
)
    ensures
        crew.spec_eager(index) <==> index < crew.crew.core.transitions@.len() && (match Direction::Forward {
            Direction::Forward => crew.crew.core.transitions@[index as int].forward,
            _ => crew.crew.core.transitions@[index as int].backward,
        }) == ExchangeKind::PointToPoint,
        crew.does(step, before, after, outcome) <==> crew.crew.does(step, before, after, outcome),
        crew.lands(index, before, after, Ok(())) && index >= crew.crew.core.boundary ==> {
            &&& after.0 == before.0
            &&& after.1.real_intermediate == before.1.real_intermediate
            &&& crew.split.ensures(
                (index, Direction::Forward, None::<bool>, (before.1.intermediate, before.1.transpose)),
                ((after.1.intermediate, after.1.transpose), Ok(())),
            )
        },
        crew.lands(index, before, after, Ok(())) && index < crew.crew.core.boundary ==> {
            &&& after.0 == before.0
            &&& after.1.intermediate == before.1.intermediate
            &&& before.1.real_intermediate is Some
            &&& before.1.real_transpose is Some
            &&& crew.real_split.ensures(
                (index, Direction::Forward, None::<bool>, (before.1.real_intermediate->0, before.1.real_transpose->0)),
                ((after.1.real_intermediate->0, after.1.real_transpose->0), Ok(())),
            )
        },
        crew.settles(index, true, before, after, Ok(())) && index >= crew.crew.core.boundary ==> {
            &&& after.0 == before.0
            &&& after.1.real_intermediate == before.1.real_intermediate
            &&& crew.split.ensures(
                (index, Direction::Forward, Some(true), (before.1.intermediate, before.1.transpose)),
                ((after.1.intermediate, after.1.transpose), Ok(())),
            )
        },
        crew.settles(index, true, before, after, Ok(())) && index < crew.crew.core.boundary ==> {
            &&& after.0 == before.0
            &&& after.1.intermediate == before.1.intermediate
            &&& before.1.real_intermediate is Some
            &&& before.1.real_transpose is Some
            &&& crew.real_split.ensures(
                (index, Direction::Forward, Some(true), (before.1.real_intermediate->0, before.1.real_transpose->0)),
                ((after.1.real_intermediate->0, after.1.real_transpose->0), Ok(())),
            )
        },
{
}

/// The two parts of an exchange that a real-to-complex plan overlaps with kernels: it is split
/// exactly where processes send to each other one by one; its first part is asked for before
/// the kernels and its second behind them, in the direction of the execution, and only for the
/// values that it is about. Steps outside exchanges are done as in an execution without
/// overlap.
pub proof fn law_r2c_reverse_splits<R: FftReal, FX: Fn(&[Complex<R>], usize) -> Result<Vec<R>, LocalR2cError>, FC: Fn(&[Complex<R>], usize) -> Result<Vec<Complex<R>>, LocalC2cError>, XR: Fn(usize, Passage, Load<R, N, M>) -> (Load<R, N, M>, Result<(), FftError>), XC: Fn(usize, Passage, Load<Complex<R>, N, M>) -> (Load<Complex<R>, N, M>, Result<(), FftError>), V: Inspector<R, R2cError, N, M>, YR: Fn(usize, Direction, Option<bool>, Load<R, N, M>) -> (Load<R, N, M>, Result<(), OverlapError<R2cError>>), YC: Fn(usize, Direction, Option<bool>, Load<Complex<R>, N, M>) -> (Load<Complex<R>, N, M>, Result<(), OverlapError<R2cError>>), const N: usize, const M: usize>(
    crew: R2cReverseOverlapCrew<R, FX, FC, XR, XC, V, YR, YC, N, M>,
    index: usize,
    before: R2cReverseTask<R, N, M>,
    after: R2cReverseTask<R, N, M>,
    step: Step,
    outcome: Result<(), R2cError>,
)
    ensures
        crew.spec_eager(index) <==> index < crew.crew.core.transitions@.len() && (match crew.crew.direction {
            Direction::Forward => crew.crew.core.transitions@[index as int].forward,
            _ => crew.crew.core.transitions@[index as int].backward,
        }) == ExchangeKind::PointToPoint,
        crew.does(step, before, after, outcome) <==> crew.crew.does(step, before, after, outcome),
        crew.lands(index, before, after, Ok(())) && index >= crew.crew.core.boundary ==> {
            &&& after.0 == before.0
            &&& after.1.real_intermediate == before.1.real_intermediate
            &&& crew.split.ensures(
                (index, crew.crew.direction, None::<bool>, (before.1.intermediate, before.1.transpose)),
                ((after.1.intermediate, after.1.transpose), Ok(())),
            )
        },
        crew.lands(index, before, after, Ok(())) && index < crew.crew.core.boundary ==> {
            &&& after.0 == before.0
            &&& after.1.intermediate == before.1.intermediate
            &&& before.1.real_intermediate is Some
            &&& before.1.real_transpose is Some
            &&& crew.real_split.ensures(
                (index, crew.crew.direction, None::<bool>, (before.1.real_intermediate->0, before.1.real_transpose->0)),
                ((after.1.real_intermediate->0, after.1.real_transpose->0), Ok(())),
            )
        },
        crew.settles(index, true, before, after, Ok(())) && index >= crew.crew.core.boundary ==> {
            &&& after.0 == before.0
            &&& after.1.real_intermediate == before.1.real_intermediate
            &&& crew.split.ensures(
                (index, crew.crew.direction, Some(true), (before.1.intermediate, before.1.transpose)),
                ((after.1.intermediate, after.1.transpose), Ok(())),
            )
        },
        crew.settles(index, true, before, after, Ok(())) && index < crew.crew.core.boundary ==> {
            &&& after.0 == before.0
            &&& after.1.intermediate == before.1.intermediate
            &&& before.1.real_intermediate is Some
            &&& before.1.real_transpose is Some
            &&& crew.real_split.ensures(
                (index, crew.crew.direction, Some(true), (before.1.real_intermediate->0, before.1.real_transpose->0)),
                ((after.1.real_intermediate->0, after.1.real_transpose->0), Ok(())),
            )
        },
{
}

/// The two parts of an exchange that a mixed real-to-complex plan overlaps with kernels: it is
/// split exactly where processes send to each other one by one; its first part is asked for
/// before the kernels and its second behind them, in the direction of the execution, and only
/// for the values that it is about. Steps outside exchanges are done as in an execution without
/// overlap.
pub proof fn law_mixed_r2c_forward_splits<R: FftReal, FR: Fn(&[R], usize) -> Result<Vec<R>, LocalError>, FX: Fn(&[R], usize) -> Result<Vec<Complex<R>>, LocalError>, FC: Fn(&[Complex<R>], usize) -> Result<Vec<Complex<R>>, LocalError>, XR: Fn(usize, Passage, Load<R, N, M>) -> (Load<R, N, M>, Result<(), FftError>), XC: Fn(usize, Passage, Load<Complex<R>, N, M>) -> (Load<Complex<R>, N, M>, Result<(), FftError>), YR: Fn(usize, Direction, Option<bool>, Load<R, N, M>) -> (Load<R, N, M>, Result<(), OverlapError<MixedError>>), YC: Fn(usize, Direction, Option<bool>, Load<Complex<R>, N, M>) -> (Load<Complex<R>, N, M>, Result<(), OverlapError<MixedError>>), const N: usize, const M: usize>(
    crew: MixedR2cForwardOverlapCrew<R, FR, FX, FC, XR, XC, YR, YC, N, M>,
    index: usize,
    before: MixedR2cForwardTask<R, N, M>,
    after: MixedR2cForwardTask<R, N, M>,
    step: Step,
    outcome: Result<(), MixedError>,
)
    ensures
        crew.spec_eager(index) <==> index < crew.crew.core.transitions@.len() && (match Direction::Forward {
            Direction::Forward => crew.crew.core.transitions@[index as int].forward,
            _ => crew.crew.core.transitions@[index as int].backward,
        }) == ExchangeKind::PointToPoint,
        crew.does(step, before, after, outcome) <==> crew.crew.does(step, before, after, outcome),
        crew.lands(index, before, after, Ok(())) && index >= crew.crew.core.boundary ==> {
            &&& after.0 == before.0
            &&& after.1.real_intermediate == before.1.real_intermediate
            &&& crew.split.ensures(
                (index, Direction::Forward, None::<bool>, (before.1.intermediate, before.1.buffers.transpose)),
                ((after.1.intermediate, after.1.buffers.transpose), Ok(())),
            )
        },
        crew.lands(index, before, after, Ok(())) && index < crew.crew.core.boundary ==> {
            &&& after.0 == before.0
            &&& after.1.intermediate == before.1.intermediate
            &&& before.1.real_intermediate is Some
            &&& before.1.buffers.real_transpose is Some
            &&& crew.real_split.ensures(
                (index, Direction::Forward, None::<bool>, (before.1.real_intermediate->0, before.1.buffers.real_transpose->0)),
                ((after.1.real_intermediate->0, after.1.buffers.real_transpose->0), Ok(())),
            )
        },
        crew.settles(index, true, before, after, Ok(())) && index >= crew.crew.core.boundary ==> {
            &&& after.0 == before.0
            &&& after.1.real_intermediate == before.1.real_intermediate
            &&& crew.split.ensures(
                (index, Direction::Forward, Some(true), (before.1.intermediate, before.1.buffers.transpose)),
                ((after.1.intermediate, after.1.buffers.transpose), Ok(())),
            )
        },
        crew.settles(index, true, before, after, Ok(())) && index < crew.crew.core.boundary ==> {
            &&& after.0 == before.0
            &&& after.1.intermediate == before.1.intermediate
            &&& before.1.real_intermediate is Some
            &&& before.1.buffers.real_transpose is Some
            &&& crew.real_split.ensures(
                (index, Direction::Forward, Some(true), (before.1.real_intermediate->0, before.1.buffers.real_transpose->0)),
                ((after.1.real_intermediate->0, after.1.buffers.real_transpose->0), Ok(())),
            )
        },
{
}

/// The two parts of an exchange that a mixed real-to-complex plan overlaps with kernels: it is
/// split exactly where processes send to each other one by one; its first part is asked for
/// before the kernels and its second behind them, in the direction of the execution, and only
/// for the values that it is about. Steps outside exchanges are done as in an execution without
/// overlap.
pub proof fn law_mixed_r2c_reverse_splits<R: FftReal, FR: Fn(&[R], usize) -> Result<Vec<R>, LocalError>, FX: Fn(&[Complex<R>], usize) -> Result<Vec<R>, LocalError>, FC: Fn(&[Complex<R>], usize) -> Result<Vec<Complex<R>>, LocalError>, XR: Fn(usize, Passage, Load<R, N, M>) -> (Load<R, N, M>, Result<(), FftError>), XC: Fn(usize, Passage, Load<Complex<R>, N, M>) -> (Load<Complex<R>, N, M>, Result<(), FftError>), V: Inspector<R, MixedError, N, M>, YR: Fn(usize, Direction, Option<bool>, Load<R, N, M>) -> (Load<R, N, M>, Result<(), OverlapError<MixedError>>), YC: Fn(usize, Direction, Option<bool>, Load<Complex<R>, N, M>) -> (Load<Complex<R>, N, M>, Result<(), OverlapError<MixedError>>), const N: usize, const M: usize>(
    crew: MixedR2cReverseOverlapCrew<R, FR, FX, FC, XR, XC, V, YR, YC, N, M>,
    index: usize,
    before: MixedR2cReverseTask<R, N, M>,
    after: MixedR2cReverseTask<R, N, M>,
    step: Step,
    outcome: Result<(), MixedError>,
)
    ensures
        crew.spec_eager(index) <==> index < crew.crew.core.transitions@.len() && (match crew.crew.direction {
            Direction::Forward => crew.crew.core.transitions@[index as int].forward,
            _ => crew.crew.core.transitions@[index as int].backward,
        }) == ExchangeKind::PointToPoint,
        crew.does(step, before, after, outcome) <==> crew.crew.does(step, before, after, outcome),
        crew.lands(index, before, after, Ok(())) && index >= crew.crew.core.boundary ==> {
            &&& after.0 == before.0
            &&& after.1.real_intermediate == before.1.real_intermediate
            &&& crew.split.ensures(
                (index, crew.crew.direction, None::<bool>, (before.1.intermediate, before.1.buffers.transpose)),
                ((after.1.intermediate, after.1.buffers.transpose), Ok(())),
            )
        },
        crew.lands(index, before, after, Ok(())) && index < crew.crew.core.boundary ==> {
            &&& after.0 == before.0
            &&& after.1.intermediate == before.1.intermediate
            &&& before.1.real_intermediate is Some
            &&& before.1.buffers.real_transpose is Some
            &&& crew.real_split.ensures(
                (index, crew.crew.direction, None::<bool>, (before.1.real_intermediate->0, before.1.buffers.real_transpose->0)),
                ((after.1.real_intermediate->0, after.1.buffers.real_transpose->0), Ok(())),
            )
        },
        crew.settles(index, true, before, after, Ok(())) && index >= crew.crew.core.boundary ==> {
            &&& after.0 == before.0
            &&& after.1.real_intermediate == before.1.real_intermediate
            &&& crew.split.ensures(
                (index, crew.crew.direction, Some(true), (before.1.intermediate, before.1.buffers.transpose)),
                ((after.1.intermediate, after.1.buffers.transpose), Ok(())),
            )
        },
        crew.settles(index, true, before, after, Ok(())) && index < crew.crew.core.boundary ==> {
            &&& after.0 == before.0
            &&& after.1.intermediate == before.1.intermediate
            &&& before.1.real_intermediate is Some
            &&& before.1.buffers.real_transpose is Some
            &&& crew.real_split.ensures(
                (index, crew.crew.direction, Some(true), (before.1.real_intermediate->0, before.1.buffers.real_transpose->0)),
                ((after.1.real_intermediate->0, after.1.buffers.real_transpose->0), Ok(())),
            )
        },
{
}

} // verus!
