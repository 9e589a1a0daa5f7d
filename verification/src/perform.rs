//! What each local step of a schedule does to the arrays of an execution.

use vstd::prelude::*;

use crate::array::ManyPencilArray;
use crate::error::Failure;
use crate::error::FftError;
use crate::handoff::HalfComplexStorage;
use crate::handoff::SharedStorage;
use crate::layout::Pencil;
use crate::scalar::Complex;
use crate::schedule::Slot;
use crate::schedule::Step;
use crate::schedule::Work;
use crate::shared::same_frame;
use crate::shared::shared_wf;
use crate::station::applied;
use crate::station::apply;
use crate::station::depart;
use crate::station::departed;
use crate::station::enter;
use crate::station::entered;
use crate::station::CopyStation;
use crate::station::LocalStation;
use crate::station::Station;

verus! {

/// A step fails because the schedule has no such step.
pub open spec fn unknown_step<E: Failure>(outcome: Result<(), E>) -> bool {
    outcome == Err::<(), E>(E::spec_of_fft(FftError::PreparationFailed))
}

/// A step fails because the workspace has no array for its values.
pub open spec fn missing_array<E: Failure>(outcome: Result<(), E>) -> bool {
    outcome == Err::<(), E>(E::spec_of_fft(FftError::WorkspaceMismatch))
}

/// What a step does where all values are of one kind: the values enter the array in the layout
/// `entry`, are transformed there, and leave it for the destination.
pub open spec fn step_done<T: Copy, E: Failure, S: LocalStation<T, E>, const N: usize, const M: usize>(
    station: S,
    step: Step,
    entry: Pencil<N, M>,
    source: Seq<T>,
    array: (ManyPencilArray<T, N, M>, ManyPencilArray<T, N, M>),
    destination: (Seq<T>, Seq<T>),
    line: usize,
    outcome: Result<(), E>,
) -> bool {
    match (step.work, step.from, step.to) {
        (Work::Kernel(_), Slot::Source, Slot::Complex) => {
            &&& destination.1 == destination.0
            &&& entered::<T, T, E, S, N, M>(
                station,
                source,
                array.0,
                array.1,
                entry,
                line,
                outcome,
            )
        },
        (Work::Copy, Slot::Source, Slot::Complex) => {
            &&& destination.1 == destination.0
            &&& entered::<T, T, E, CopyStation, N, M>(
                CopyStation {  },
                source,
                array.0,
                array.1,
                entry,
                line,
                outcome,
            )
        },
        (Work::Kernel(_), Slot::Complex, Slot::Complex) => {
            &&& destination.1 == destination.0
            &&& applied::<T, E, S, N, M>(station, array.0, array.1, line, outcome)
        },
        (Work::Kernel(_), Slot::Complex, Slot::Destination) => {
            &&& array.1 == array.0
            &&& departed::<T, T, E, S, N, M>(
                station,
                array.0,
                destination.0,
                destination.1,
                line,
                outcome,
            )
        },
        (Work::Copy, Slot::Complex, Slot::Destination) => {
            &&& array.1 == array.0
            &&& departed::<T, T, E, CopyStation, N, M>(
                CopyStation {  },
                array.0,
                destination.0,
                destination.1,
                line,
                outcome,
            )
        },
        _ => unknown_step(outcome) && array.1 == array.0 && destination.1 == destination.0,
    }
}

/// Does a local step where all values are of one kind.
pub fn perform_step<T: Copy, E: Failure, S: LocalStation<T, E>, const N: usize, const M: usize>(
    station: &S,
    step: &Step,
    entry: &Pencil<N, M>,
    source: &[T],
    array: &mut ManyPencilArray<T, N, M>,
    destination: &mut [T],
    line: &mut Vec<T>,
) -> (outcome: Result<(), E>)
    requires
        station.ready(),
        old(array).wf(),
    ensures
        final(array).wf(),
        final(line)@.len() == old(line)@.len(),
        final(destination)@.len() == old(destination)@.len(),
        step_done::<T, E, S, N, M>(
            *station,
            *step,
            *entry,
            source@,
            (*old(array), *final(array)),
            (old(destination)@, final(destination)@),
            old(line)@.len() as usize,
            outcome,
        ),
{
    match (step.work, step.from, step.to) {
        (Work::Kernel(_), Slot::Source, Slot::Complex) => enter(
            station,
            source,
            array,
            entry,
            line,
        ),
        (Work::Copy, Slot::Source, Slot::Complex) => enter(
            &CopyStation {  },
            source,
            array,
            entry,
            line,
        ),
        (Work::Kernel(_), Slot::Complex, Slot::Complex) => apply(station, array, line),
        (Work::Kernel(_), Slot::Complex, Slot::Destination) => depart(
            station,
            array,
            destination,
            line,
        ),
        (Work::Copy, Slot::Complex, Slot::Destination) => depart(
            &CopyStation {  },
            array,
            destination,
            line,
        ),
        _ => Err(E::of_fft(FftError::PreparationFailed)),
    }
}

/// Elements of the lines that a half-complex execution keeps.
#[derive(Clone, Copy, Debug)]
pub struct HalfLens {
    /// Of a source line of the boundary.
    pub crossing: usize,
    /// Of a line of real stages.
    pub reals: usize,
    /// Of a line of complex stages.
    pub complexes: usize,
}

/// The arrays between the stages of a half-complex execution.
#[derive(Debug)]
pub struct HalfArrays<R, const N: usize, const M: usize> {
    /// The real values, where there are real exchanges.
    pub reals: Option<ManyPencilArray<R, N, M>>,
    /// The complex values.
    pub complexes: ManyPencilArray<Complex<R>, N, M>,
}

impl<R, const N: usize, const M: usize> HalfArrays<R, N, M> {
    /// The parts of each array belong together.
    pub open spec fn wf(&self) -> bool {
        &&& self.reals matches Some(array) ==> array.wf()
        &&& self.complexes.wf()
    }
}

/// The layouts that values enter in.
#[derive(Clone, Copy, Debug)]
pub struct HalfEntries<const N: usize, const M: usize> {
    /// The layout in which the source's values enter.
    pub source: Pencil<N, M>,
    /// The layout in which values enter behind the boundary.
    pub crossing: Pencil<N, M>,
}

/// What a forward step does where real values become complex.
pub open spec fn forward_done<R: Copy, E: Failure, SR: LocalStation<R, E>, SX: Station<R, Complex<R>, E>, SC: LocalStation<Complex<R>, E>, const N: usize, const M: usize>(
    stations: (SR, SX, SC),
    step: Step,
    entries: HalfEntries<N, M>,
    source: Seq<R>,
    before: HalfArrays<R, N, M>,
    after: HalfArrays<R, N, M>,
    destination: (Seq<Complex<R>>, Seq<Complex<R>>),
    lens: HalfLens,
    outcome: Result<(), E>,
) -> bool {
    let unchanged = after == before && destination.1 == destination.0;
    match (step.work, step.from, step.to) {
        (Work::Copy, Slot::Source, Slot::Real) => match (before.reals, after.reals) {
            (Some(old_reals), Some(new_reals)) => {
                &&& after.complexes == before.complexes
                &&& destination.1 == destination.0
                &&& entered::<R, R, E, CopyStation, N, M>(
                    CopyStation {  },
                    source,
                    old_reals,
                    new_reals,
                    entries.source,
                    lens.reals,
                    outcome,
                )
            },
            _ => unchanged && missing_array(outcome),
        },
        (Work::Kernel(_), Slot::Source, Slot::Real) => match (before.reals, after.reals) {
            (Some(old_reals), Some(new_reals)) => {
                &&& after.complexes == before.complexes
                &&& destination.1 == destination.0
                &&& entered::<R, R, E, SR, N, M>(
                    stations.0,
                    source,
                    old_reals,
                    new_reals,
                    entries.source,
                    lens.reals,
                    outcome,
                )
            },
            _ => unchanged && missing_array(outcome),
        },
        (Work::Kernel(_), Slot::Real, Slot::Real) => match (before.reals, after.reals) {
            (Some(old_reals), Some(new_reals)) => {
                &&& after.complexes == before.complexes
                &&& destination.1 == destination.0
                &&& applied::<R, E, SR, N, M>(
                    stations.0,
                    old_reals,
                    new_reals,
                    lens.reals,
                    outcome,
                )
            },
            _ => unchanged && missing_array(outcome),
        },
        (Work::Kernel(_), Slot::Source, Slot::Complex) => {
            &&& after.reals == before.reals
            &&& destination.1 == destination.0
            &&& entered::<R, Complex<R>, E, SX, N, M>(
                stations.1,
                source,
                before.complexes,
                after.complexes,
                entries.crossing,
                lens.crossing,
                outcome,
            )
        },
        (Work::Kernel(_), Slot::Real, Slot::Complex) => match before.reals {
            Some(reals) => if reals.active is None {
                unchanged && poisoned_array(outcome)
            } else {
                &&& after.reals == before.reals
                &&& destination.1 == destination.0
                &&& entered::<R, Complex<R>, E, SX, N, M>(
                    stations.1,
                    reals.storage@.subrange(0, reals.active_len()),
                    before.complexes,
                    after.complexes,
                    entries.crossing,
                    lens.crossing,
                    outcome,
                )
            },
            None => unchanged && missing_array(outcome),
        },
        (Work::Kernel(_), Slot::Complex, Slot::Complex) => {
            &&& after.reals == before.reals
            &&& destination.1 == destination.0
            &&& applied::<Complex<R>, E, SC, N, M>(
                stations.2,
                before.complexes,
                after.complexes,
                lens.complexes,
                outcome,
            )
        },
        (Work::Kernel(_), Slot::Complex, Slot::Destination) => {
            &&& after == before
            &&& departed::<Complex<R>, Complex<R>, E, SC, N, M>(
                stations.2,
                before.complexes,
                destination.0,
                destination.1,
                lens.complexes,
                outcome,
            )
        },
        (Work::Copy, Slot::Complex, Slot::Destination) => {
            &&& after == before
            &&& departed::<Complex<R>, Complex<R>, E, CopyStation, N, M>(
                CopyStation {  },
                before.complexes,
                destination.0,
                destination.1,
                lens.complexes,
                outcome,
            )
        },
        _ => unchanged && unknown_step(outcome),
    }
}

/// A step fails because its values are meaningless.
pub open spec fn poisoned_array<E: Failure>(outcome: Result<(), E>) -> bool {
    outcome == Err::<(), E>(
        E::spec_of_fft(FftError::Array(crate::error::ArrayError::Poisoned)),
    )
}

/// Does a local step of a forward execution where real values become complex.
pub fn perform_forward<R: Copy, E: Failure, SR: LocalStation<R, E>, SX: Station<R, Complex<R>, E>, SC: LocalStation<Complex<R>, E>, const N: usize, const M: usize>(
    stations: &(SR, SX, SC),
    step: &Step,
    entries: &HalfEntries<N, M>,
    source: &[R],
    reals: &mut Option<ManyPencilArray<R, N, M>>,
    complexes: &mut ManyPencilArray<Complex<R>, N, M>,
    destination: &mut [Complex<R>],
    crossing_line: &mut Vec<R>,
    real_line: &mut Vec<R>,
    complex_line: &mut Vec<Complex<R>>,
) -> (outcome: Result<(), E>)
    requires
        stations.0.ready(),
        stations.1.ready(),
        stations.2.ready(),
        (HalfArrays { reals: *old(reals), complexes: *old(complexes) }).wf(),
    ensures
        (HalfArrays { reals: *final(reals), complexes: *final(complexes) }).wf(),
        final(crossing_line)@.len() == old(crossing_line)@.len(),
        final(real_line)@.len() == old(real_line)@.len(),
        final(complex_line)@.len() == old(complex_line)@.len(),
        final(destination)@.len() == old(destination)@.len(),
        forward_done::<R, E, SR, SX, SC, N, M>(
            *stations,
            *step,
            *entries,
            source@,
            (HalfArrays { reals: *old(reals), complexes: *old(complexes) }),
            (HalfArrays { reals: *final(reals), complexes: *final(complexes) }),
            (old(destination)@, final(destination)@),
            (HalfLens {
                crossing: old(crossing_line)@.len() as usize,
                reals: old(real_line)@.len() as usize,
                complexes: old(complex_line)@.len() as usize,
            }),
            outcome,
        ),
{
    match (step.work, step.from, step.to) {
        (Work::Copy, Slot::Source, Slot::Real) => match reals {
            Some(array) => enter(
                &CopyStation {  },
                source,
                array,
                &entries.source,
                real_line,
            ),
            None => Err(E::of_fft(FftError::WorkspaceMismatch)),
        },
        (Work::Kernel(_), Slot::Source, Slot::Real) => match reals {
            Some(array) => enter(
                &stations.0,
                source,
                array,
                &entries.source,
                real_line,
            ),
            None => Err(E::of_fft(FftError::WorkspaceMismatch)),
        },
        (Work::Kernel(_), Slot::Real, Slot::Real) => match reals {
            Some(array) => apply(&stations.0, array, real_line),
            None => Err(E::of_fft(FftError::WorkspaceMismatch)),
        },
        (Work::Kernel(_), Slot::Source, Slot::Complex) => enter(
            &stations.1,
            source,
            complexes,
            &entries.crossing,
            crossing_line,
        ),
        (Work::Kernel(_), Slot::Real, Slot::Complex) => match reals {
            Some(array) => match array.active_view() {
                Ok(view) => enter(
                    &stations.1,
                    view,
                    complexes,
                    &entries.crossing,
                    crossing_line,
                ),
                Err(error) => Err(E::of_fft(FftError::Array(error))),
            },
            None => Err(E::of_fft(FftError::WorkspaceMismatch)),
        },
        (Work::Kernel(_), Slot::Complex, Slot::Complex) => apply(
            &stations.2,
            complexes,
            complex_line,
        ),
        (Work::Kernel(_), Slot::Complex, Slot::Destination) => depart(
            &stations.2,
            complexes,
            destination,
            complex_line,
        ),
        (Work::Copy, Slot::Complex, Slot::Destination) => depart(
            &CopyStation {  },
            complexes,
            destination,
            complex_line,
        ),
        _ => Err(E::of_fft(FftError::PreparationFailed)),
    }
}

/// What a reverse step does where complex values become real.
pub open spec fn reverse_done<R: Copy, E: Failure, SR: LocalStation<R, E>, SX: Station<Complex<R>, R, E>, SC: LocalStation<Complex<R>, E>, const N: usize, const M: usize>(
    stations: (SR, SX, SC),
    step: Step,
    entries: HalfEntries<N, M>,
    source: Seq<Complex<R>>,
    before: HalfArrays<R, N, M>,
    after: HalfArrays<R, N, M>,
    destination: (Seq<R>, Seq<R>),
    lens: HalfLens,
    outcome: Result<(), E>,
) -> bool {
    let unchanged = after == before && destination.1 == destination.0;
    match (step.work, step.from, step.to) {
        (Work::Copy, Slot::Source, Slot::Complex) => {
            &&& after.reals == before.reals
            &&& destination.1 == destination.0
            &&& entered::<Complex<R>, Complex<R>, E, CopyStation, N, M>(
                CopyStation {  },
                source,
                before.complexes,
                after.complexes,
                entries.source,
                lens.complexes,
                outcome,
            )
        },
        (Work::Kernel(_), Slot::Source, Slot::Complex) => {
            &&& after.reals == before.reals
            &&& destination.1 == destination.0
            &&& entered::<Complex<R>, Complex<R>, E, SC, N, M>(
                stations.2,
                source,
                before.complexes,
                after.complexes,
                entries.source,
                lens.complexes,
                outcome,
            )
        },
        (Work::Kernel(_), Slot::Complex, Slot::Complex) => {
            &&& after.reals == before.reals
            &&& destination.1 == destination.0
            &&& applied::<Complex<R>, E, SC, N, M>(
                stations.2,
                before.complexes,
                after.complexes,
                lens.complexes,
                outcome,
            )
        },
        (Work::Kernel(_), Slot::Complex, Slot::Destination) => {
            &&& after == before
            &&& departed::<Complex<R>, R, E, SX, N, M>(
                stations.1,
                before.complexes,
                destination.0,
                destination.1,
                lens.crossing,
                outcome,
            )
        },
        (Work::Kernel(_), Slot::Complex, Slot::Real) => if before.complexes.active is None {
            unchanged && poisoned_array(outcome)
        } else {
            match (before.reals, after.reals) {
                (Some(old_reals), Some(new_reals)) => {
                    &&& after.complexes == before.complexes
                    &&& destination.1 == destination.0
                    &&& entered::<Complex<R>, R, E, SX, N, M>(
                        stations.1,
                        before.complexes.storage@.subrange(0, before.complexes.active_len()),
                        old_reals,
                        new_reals,
                        entries.crossing,
                        lens.crossing,
                        outcome,
                    )
                },
                _ => unchanged && missing_array(outcome),
            }
        },
        (Work::Kernel(_), Slot::Real, Slot::Real) => match (before.reals, after.reals) {
            (Some(old_reals), Some(new_reals)) => {
                &&& after.complexes == before.complexes
                &&& destination.1 == destination.0
                &&& applied::<R, E, SR, N, M>(
                    stations.0,
                    old_reals,
                    new_reals,
                    lens.reals,
                    outcome,
                )
            },
            _ => unchanged && missing_array(outcome),
        },
        (Work::Kernel(_), Slot::Real, Slot::Destination) => match before.reals {
            Some(reals) => {
                &&& after == before
                &&& departed::<R, R, E, SR, N, M>(
                    stations.0,
                    reals,
                    destination.0,
                    destination.1,
                    lens.reals,
                    outcome,
                )
            },
            None => unchanged && missing_array(outcome),
        },
        (Work::Copy, Slot::Real, Slot::Destination) => match before.reals {
            Some(reals) => {
                &&& after == before
                &&& departed::<R, R, E, CopyStation, N, M>(
                    CopyStation {  },
                    reals,
                    destination.0,
                    destination.1,
                    lens.reals,
                    outcome,
                )
            },
            None => unchanged && missing_array(outcome),
        },
        _ => unchanged && unknown_step(outcome),
    }
}

/// Does a local step of a reverse execution where complex values become real. The endpoint planes
/// are checked and cleared by steps of their own.
pub fn perform_reverse<R: Copy, E: Failure, SR: LocalStation<R, E>, SX: Station<Complex<R>, R, E>, SC: LocalStation<Complex<R>, E>, const N: usize, const M: usize>(
    stations: &(SR, SX, SC),
    step: &Step,
    entries: &HalfEntries<N, M>,
    source: &[Complex<R>],
    reals: &mut Option<ManyPencilArray<R, N, M>>,
    complexes: &mut ManyPencilArray<Complex<R>, N, M>,
    destination: &mut [R],
    crossing_line: &mut Vec<Complex<R>>,
    real_line: &mut Vec<R>,
    complex_line: &mut Vec<Complex<R>>,
) -> (outcome: Result<(), E>)
    requires
        stations.0.ready(),
        stations.1.ready(),
        stations.2.ready(),
        (HalfArrays { reals: *old(reals), complexes: *old(complexes) }).wf(),
    ensures
        (HalfArrays { reals: *final(reals), complexes: *final(complexes) }).wf(),
        final(crossing_line)@.len() == old(crossing_line)@.len(),
        final(real_line)@.len() == old(real_line)@.len(),
        final(complex_line)@.len() == old(complex_line)@.len(),
        final(destination)@.len() == old(destination)@.len(),
        reverse_done::<R, E, SR, SX, SC, N, M>(
            *stations,
            *step,
            *entries,
            source@,
            (HalfArrays { reals: *old(reals), complexes: *old(complexes) }),
            (HalfArrays { reals: *final(reals), complexes: *final(complexes) }),
            (old(destination)@, final(destination)@),
            (HalfLens {
                crossing: old(crossing_line)@.len() as usize,
                reals: old(real_line)@.len() as usize,
                complexes: old(complex_line)@.len() as usize,
            }),
            outcome,
        ),
{
    match (step.work, step.from, step.to) {
        (Work::Copy, Slot::Source, Slot::Complex) => enter(
            &CopyStation {  },
            source,
            complexes,
            &entries.source,
            complex_line,
        ),
        (Work::Kernel(_), Slot::Source, Slot::Complex) => enter(
            &stations.2,
            source,
            complexes,
            &entries.source,
            complex_line,
        ),
        (Work::Kernel(_), Slot::Complex, Slot::Complex) => apply(
            &stations.2,
            complexes,
            complex_line,
        ),
        (Work::Kernel(_), Slot::Complex, Slot::Destination) => depart(
            &stations.1,
            complexes,
            destination,
            crossing_line,
        ),
        (Work::Kernel(_), Slot::Complex, Slot::Real) => match complexes.active_view() {
            Err(error) => Err(E::of_fft(FftError::Array(error))),
            Ok(view) => match reals {
                Some(array) => enter(
                    &stations.1,
                    view,
                    array,
                    &entries.crossing,
                    crossing_line,
                ),
                None => Err(E::of_fft(FftError::WorkspaceMismatch)),
            },
        },
        (Work::Kernel(_), Slot::Real, Slot::Real) => match reals {
            Some(array) => apply(&stations.0, array, real_line),
            None => Err(E::of_fft(FftError::WorkspaceMismatch)),
        },
        (Work::Kernel(_), Slot::Real, Slot::Destination) => match reals {
            Some(array) => depart(&stations.0, array, destination, real_line),
            None => Err(E::of_fft(FftError::WorkspaceMismatch)),
        },
        (Work::Copy, Slot::Real, Slot::Destination) => match reals {
            Some(array) => depart(
                &CopyStation {  },
                array,
                destination,
                real_line,
            ),
            None => Err(E::of_fft(FftError::WorkspaceMismatch)),
        },
        _ => Err(E::of_fft(FftError::PreparationFailed)),
    }
}

/// Applies a stage before the boundary to the allocation of an in-place execution.
pub fn apply_real_side<R: Copy, E: Failure, S: LocalStation<R, E>, const N: usize, const M: usize>(
    station: &S,
    shared: &mut SharedStorage<R, N, M>,
    line: &mut Vec<R>,
) -> (outcome: Result<(), E>)
    requires
        station.ready(),
        shared_wf(*old(shared)),
    ensures
        shared_wf(*final(shared)),
        final(line)@.len() == old(line)@.len(),
        same_frame(*old(shared), *final(shared)),
        match old(shared).storage {
            Some(HalfComplexStorage::Real(before)) => final(shared).storage matches Some(
                HalfComplexStorage::Real(after),
            ) && applied::<R, E, S, N, M>(
                *station,
                before,
                after,
                old(line)@.len() as usize,
                outcome,
            ),
            _ => {
                &&& outcome == Err::<(), E>(E::spec_of_fft(FftError::StorageLayoutMismatch))
                &&& *final(shared) == *old(shared)
            },
        },
{
    match &mut shared.storage {
        Some(HalfComplexStorage::Real(values)) => apply(station, values, line),
        _ => Err(E::of_fft(FftError::StorageLayoutMismatch)),
    }
}

/// Applies a stage behind the boundary to the allocation of an in-place execution.
pub fn apply_complex_side<R: Copy, E: Failure, S: LocalStation<Complex<R>, E>, const N: usize, const M: usize>(
    station: &S,
    shared: &mut SharedStorage<R, N, M>,
    line: &mut Vec<Complex<R>>,
) -> (outcome: Result<(), E>)
    requires
        station.ready(),
        shared_wf(*old(shared)),
    ensures
        shared_wf(*final(shared)),
        final(line)@.len() == old(line)@.len(),
        same_frame(*old(shared), *final(shared)),
        match old(shared).storage {
            Some(HalfComplexStorage::Complex(before)) => final(shared).storage matches Some(
                HalfComplexStorage::Complex(after),
            ) && applied::<Complex<R>, E, S, N, M>(
                *station,
                before,
                after,
                old(line)@.len() as usize,
                outcome,
            ),
            _ => {
                &&& outcome == Err::<(), E>(E::spec_of_fft(FftError::StorageLayoutMismatch))
                &&& *final(shared) == *old(shared)
            },
        },
{
    match &mut shared.storage {
        Some(HalfComplexStorage::Complex(values)) => apply(station, values, line),
        _ => Err(E::of_fft(FftError::StorageLayoutMismatch)),
    }
}

} // verus!
