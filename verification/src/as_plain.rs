//! An execution with overlap succeeds where the plain one does, and gives what it gives.

use vstd::prelude::*;

use crate::carrier::Load;
use crate::crew::Crew;
use crate::crew::InTurn;
use crate::crew::Overlapped;
use crate::crew_mixed_c2c::MixedC2cCrew;
use crate::crew_mixed_c2c::MixedC2cOverlapCrew;
use crate::crew_mixed_c2c::MixedC2cTask;
use crate::crew_mixed_r2c::MixedR2cForwardCrew;
use crate::crew_mixed_r2c::MixedR2cForwardOverlapCrew;
use crate::crew_mixed_r2c::MixedR2cForwardTask;
use crate::crew_r2c::R2cForwardCrew;
use crate::crew_r2c::R2cForwardOverlapCrew;
use crate::crew_r2c::R2cForwardTask;
use crate::error::FftError;
use crate::error::FftOverlapError;
use crate::error::LocalC2cError;
use crate::error::LocalR2cError;
use crate::error::MixedError;
use crate::error::OverlapError;
use crate::error::R2cError;
use crate::holds::parts_lead_on;
use crate::layout::Direction;
use crate::registry::inputs_of;
use crate::registry::outputs_of;
use crate::run::OverlapLaunch;
use crate::run::executed_overlapped;
use crate::run::steps_run;
use crate::same_mixed_c2c::law_mixed_c2c_overlap_is_plain;
use crate::same_mixed_c2c::mixed_c2c_alike;
use crate::same_mixed_r2c::law_mixed_r2c_overlap_is_plain;
use crate::same_mixed_r2c::mixed_r2c_alike;
use crate::same_r2c::law_r2c_overlap_is_plain;
use crate::same_r2c::r2c_alike;
use crate::scalar::Complex;
use crate::scalar::FftReal;
use crate::schedule::Mode;
use crate::stages::LocalError;
use crate::succeed_mixed_c2c::law_mixed_c2c_overlapped_succeeds;
use crate::succeed_mixed_c2c::mixed_c2c_owed;
use crate::succeed_mixed_r2c::law_mixed_r2c_forward_overlapped_succeeds;
use crate::succeed_mixed_r2c::mixed_r2c_owed_there;
use crate::succeed_r2c::law_r2c_forward_overlapped_succeeds;
use crate::succeed_r2c::r2c_owed_there;
use crate::success::ready_overlapped;
use crate::transition::Passage;
use crate::walk::encloses;

verus! {

/// Where a forward execution of a mixed complex plan without overlap succeeds, one with overlap
/// that starts on all processes and whose kernels and exchanges do not fail succeeds too and gives
/// the same values; neither writes the source.
pub proof fn law_mixed_c2c_overlap_succeeds_as_plain<R: FftReal, F: Fn(&[Complex<R>], usize) -> Result<Vec<Complex<R>>, LocalError>, G: Fn(&[Complex<R>], usize) -> Result<Vec<Complex<R>>, LocalError>, X: Fn(usize, Passage, Load<Complex<R>, N, M>) -> (Load<Complex<R>, N, M>, Result<(), FftError>), Z: Fn(usize, Passage, Load<Complex<R>, N, M>) -> (Load<Complex<R>, N, M>, Result<(), FftError>), Y: Fn(usize, Direction, Option<bool>, Load<Complex<R>, N, M>) -> (Load<Complex<R>, N, M>, Result<(), OverlapError<MixedError>>), A: Fn(bool) -> bool, B: Fn(bool) -> bool, Q: Fn(u64, &Vec<u64>) -> Result<(), FftError>, const N: usize, const M: usize>(
    plain: MixedC2cCrew<R, F, X, N, M>,
    overlapped: MixedC2cOverlapCrew<R, G, Z, Y, N, M>,
    launch: OverlapLaunch<MixedError>,
    same_plan: Q,
    agree: (A, B),
    eager: (Seq<bool>, Seq<bool>),
    start: MixedC2cTask<R, N, M>,
    end: MixedC2cTask<R, N, M>,
    from: MixedC2cTask<R, N, M>,
    to: MixedC2cTask<R, N, M>,
    outcome: Result<(), FftOverlapError<MixedError>>,
)
    requires
        plain.able(),
        mixed_c2c_alike::<R, F, G, X, Z, N, M>(plain, overlapped.crew),
        plain.source.data@ == overlapped.crew.source.data@,
        steps_run::<MixedC2cTask<R, N, M>, MixedError, InTurn<MixedC2cCrew<R, F, X, N, M>>, A>(
            InTurn { crew: &plain },
            agree.0,
            plain.core.itinerary().list(Direction::Forward, Mode::OutOfPlace, eager.0),
            start,
            end,
            Ok(()),
        ),
        overlapped.able(),
        encloses::<MixedC2cTask<R, N, M>, MixedError, MixedC2cOverlapCrew<R, G, Z, Y, N, M>>(overlapped),
        executed_overlapped(
            launch,
            overlapped.crew.core.descriptor,
            same_plan,
            agree.1,
            Overlapped { crew: &overlapped },
            from,
            to,
            outcome,
        ),
        launch.steps@ == plain.core.itinerary().list(Direction::Forward, Mode::Overlap, eager.1),
        ready_overlapped(launch, overlapped.crew.core.descriptor, same_plan, agree.1),
        mixed_c2c_owed(overlapped.crew, from),
        parts_lead_on::<Complex<R>, MixedError, Y, N, M>(
            *overlapped.split,
            Direction::Forward,
            outputs_of(overlapped.crew.core.stages@),
        ),
    ensures
        outcome is Ok,
        to.0.data@ == end.0.data@,
{
    law_mixed_c2c_overlapped_succeeds(overlapped, launch, same_plan, agree.1, eager.1, from, to, outcome);
    law_mixed_c2c_overlap_is_plain::<R, F, G, X, Z, Y, A, B, N, M>(plain, overlapped, agree, eager, start, end, from, to);
}

/// Where a forward execution of a real-to-complex plan without overlap succeeds, one with overlap
/// that starts on all processes and whose kernels and exchanges do not fail succeeds too and gives
/// the same values; neither writes the source.
pub proof fn law_r2c_overlap_succeeds_as_plain<R: FftReal, FX: Fn(&[R], usize) -> Result<Vec<Complex<R>>, LocalR2cError>, GX: Fn(&[R], usize) -> Result<Vec<Complex<R>>, LocalR2cError>, FC: Fn(&[Complex<R>], usize) -> Result<Vec<Complex<R>>, LocalC2cError>, GC: Fn(&[Complex<R>], usize) -> Result<Vec<Complex<R>>, LocalC2cError>, XR: Fn(usize, Passage, Load<R, N, M>) -> (Load<R, N, M>, Result<(), FftError>), ZR: Fn(usize, Passage, Load<R, N, M>) -> (Load<R, N, M>, Result<(), FftError>), XC: Fn(usize, Passage, Load<Complex<R>, N, M>) -> (Load<Complex<R>, N, M>, Result<(), FftError>), ZC: Fn(usize, Passage, Load<Complex<R>, N, M>) -> (Load<Complex<R>, N, M>, Result<(), FftError>), YR: Fn(usize, Direction, Option<bool>, Load<R, N, M>) -> (Load<R, N, M>, Result<(), OverlapError<R2cError>>), YC: Fn(usize, Direction, Option<bool>, Load<Complex<R>, N, M>) -> (Load<Complex<R>, N, M>, Result<(), OverlapError<R2cError>>), A: Fn(bool) -> bool, B: Fn(bool) -> bool, Q: Fn(u64, &Vec<u64>) -> Result<(), FftError>, const N: usize, const M: usize>(
    plain: R2cForwardCrew<R, FX, FC, XR, XC, N, M>,
    overlapped: R2cForwardOverlapCrew<R, GX, GC, ZR, ZC, YR, YC, N, M>,
    launch: OverlapLaunch<R2cError>,
    same_plan: Q,
    agree: (A, B),
    eager: (Seq<bool>, Seq<bool>),
    start: R2cForwardTask<R, N, M>,
    end: R2cForwardTask<R, N, M>,
    from: R2cForwardTask<R, N, M>,
    to: R2cForwardTask<R, N, M>,
    outcome: Result<(), FftOverlapError<R2cError>>,
)
    requires
        plain.able(),
        r2c_alike::<R, FX, GX, FC, GC, XR, ZR, XC, ZC, N, M>(plain, overlapped.crew),
        plain.source.data@ == overlapped.crew.source.data@,
        steps_run::<R2cForwardTask<R, N, M>, R2cError, InTurn<R2cForwardCrew<R, FX, FC, XR, XC, N, M>>, A>(
            InTurn { crew: &plain },
            agree.0,
            plain.core.itinerary().list(Direction::Forward, Mode::OutOfPlace, eager.0),
            start,
            end,
            Ok(()),
        ),
        overlapped.able(),
        encloses::<R2cForwardTask<R, N, M>, R2cError, R2cForwardOverlapCrew<R, GX, GC, ZR, ZC, YR, YC, N, M>>(overlapped),
        executed_overlapped(
            launch,
            overlapped.crew.core.descriptor,
            same_plan,
            agree.1,
            Overlapped { crew: &overlapped },
            from,
            to,
            outcome,
        ),
        launch.steps@ == plain.core.itinerary().list(Direction::Forward, Mode::Overlap, eager.1),
        ready_overlapped(launch, overlapped.crew.core.descriptor, same_plan, agree.1),
        r2c_owed_there(overlapped.crew, from),
        parts_lead_on::<R, R2cError, YR, N, M>(
            *overlapped.real_split,
            Direction::Forward,
            inputs_of(overlapped.crew.core.stages@),
        ),
        parts_lead_on::<Complex<R>, R2cError, YC, N, M>(
            *overlapped.split,
            Direction::Forward,
            outputs_of(overlapped.crew.core.stages@),
        ),
    ensures
        outcome is Ok,
        to.0.data@ == end.0.data@,
{
    law_r2c_forward_overlapped_succeeds(overlapped, launch, same_plan, agree.1, eager.1, from, to, outcome);
    law_r2c_overlap_is_plain::<R, FX, GX, FC, GC, XR, ZR, XC, ZC, YR, YC, A, B, N, M>(plain, overlapped, agree, eager, start, end, from, to);
}

/// Where a forward execution of a mixed real-to-complex plan without overlap succeeds, one with
/// overlap that starts on all processes and whose kernels and exchanges do not fail succeeds too
/// and gives the same values; neither writes the source.
pub proof fn law_mixed_r2c_overlap_succeeds_as_plain<R: FftReal, FR: Fn(&[R], usize) -> Result<Vec<R>, LocalError>, GR: Fn(&[R], usize) -> Result<Vec<R>, LocalError>, FX: Fn(&[R], usize) -> Result<Vec<Complex<R>>, LocalError>, GX: Fn(&[R], usize) -> Result<Vec<Complex<R>>, LocalError>, FC: Fn(&[Complex<R>], usize) -> Result<Vec<Complex<R>>, LocalError>, GC: Fn(&[Complex<R>], usize) -> Result<Vec<Complex<R>>, LocalError>, XR: Fn(usize, Passage, Load<R, N, M>) -> (Load<R, N, M>, Result<(), FftError>), ZR: Fn(usize, Passage, Load<R, N, M>) -> (Load<R, N, M>, Result<(), FftError>), XC: Fn(usize, Passage, Load<Complex<R>, N, M>) -> (Load<Complex<R>, N, M>, Result<(), FftError>), ZC: Fn(usize, Passage, Load<Complex<R>, N, M>) -> (Load<Complex<R>, N, M>, Result<(), FftError>), YR: Fn(usize, Direction, Option<bool>, Load<R, N, M>) -> (Load<R, N, M>, Result<(), OverlapError<MixedError>>), YC: Fn(usize, Direction, Option<bool>, Load<Complex<R>, N, M>) -> (Load<Complex<R>, N, M>, Result<(), OverlapError<MixedError>>), A: Fn(bool) -> bool, B: Fn(bool) -> bool, Q: Fn(u64, &Vec<u64>) -> Result<(), FftError>, const N: usize, const M: usize>(
    plain: MixedR2cForwardCrew<R, FR, FX, FC, XR, XC, N, M>,
    overlapped: MixedR2cForwardOverlapCrew<R, GR, GX, GC, ZR, ZC, YR, YC, N, M>,
    launch: OverlapLaunch<MixedError>,
    same_plan: Q,
    agree: (A, B),
    eager: (Seq<bool>, Seq<bool>),
    start: MixedR2cForwardTask<R, N, M>,
    end: MixedR2cForwardTask<R, N, M>,
    from: MixedR2cForwardTask<R, N, M>,
    to: MixedR2cForwardTask<R, N, M>,
    outcome: Result<(), FftOverlapError<MixedError>>,
)
    requires
        plain.able(),
        mixed_r2c_alike::<R, FR, GR, FX, GX, FC, GC, XR, ZR, XC, ZC, N, M>(plain, overlapped.crew),
        plain.source.data@ == overlapped.crew.source.data@,
        steps_run::<MixedR2cForwardTask<R, N, M>, MixedError, InTurn<MixedR2cForwardCrew<R, FR, FX, FC, XR, XC, N, M>>, A>(
            InTurn { crew: &plain },
            agree.0,
            plain.core.itinerary().list(Direction::Forward, Mode::OutOfPlace, eager.0),
            start,
            end,
            Ok(()),
        ),
        overlapped.able(),
        encloses::<MixedR2cForwardTask<R, N, M>, MixedError, MixedR2cForwardOverlapCrew<R, GR, GX, GC, ZR, ZC, YR, YC, N, M>>(overlapped),
        executed_overlapped(
            launch,
            overlapped.crew.core.descriptor,
            same_plan,
            agree.1,
            Overlapped { crew: &overlapped },
            from,
            to,
            outcome,
        ),
        launch.steps@ == plain.core.itinerary().list(Direction::Forward, Mode::Overlap, eager.1),
        ready_overlapped(launch, overlapped.crew.core.descriptor, same_plan, agree.1),
        mixed_r2c_owed_there(overlapped.crew, from),
        parts_lead_on::<R, MixedError, YR, N, M>(
            *overlapped.real_split,
            Direction::Forward,
            inputs_of(overlapped.crew.core.stages@),
        ),
        parts_lead_on::<Complex<R>, MixedError, YC, N, M>(
            *overlapped.split,
            Direction::Forward,
            outputs_of(overlapped.crew.core.stages@),
        ),
    ensures
        outcome is Ok,
        to.0.data@ == end.0.data@,
{
    law_mixed_r2c_forward_overlapped_succeeds(overlapped, launch, same_plan, agree.1, eager.1, from, to, outcome);
    law_mixed_r2c_overlap_is_plain::<R, FR, GR, FX, GX, FC, GC, XR, ZR, XC, ZC, YR, YC, A, B, N, M>(plain, overlapped, agree, eager, start, end, from, to);
}

} // verus!
