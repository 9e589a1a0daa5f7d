//! The local stages of mixed plans.

use vstd::prelude::*;

use crate::error::FftError;
use crate::error::MixedError;
use crate::layout::Pencil;
use crate::lines::copy_all;
use crate::lines::line_kernel;
use crate::local::LocalR2cPlan;
use crate::local::MixedComplexLocal;
use crate::local::MixedR2rLocal;
use crate::local::MixedRealLocal;
use crate::scalar::Complex;
use crate::stages::as_mixed_sweep;
use crate::stages::boundary_forward_lens;
use crate::stages::boundary_reverse_lens;
use crate::stages::complex_lens;
use crate::stages::copied;
use crate::stages::mixed_r2r_lens;
use crate::stages::LocalError;
use crate::sweep::sweep;
use crate::sweep::sweep_in_place;
use crate::sweep::swept;
use crate::sweep::SweepError;
use crate::sweep::SweepLens;

verus! {

/// A stage reported no fault of the plan itself.
pub open spec fn no_plan_fault(outcome: Result<(), MixedError>) -> bool {
    outcome is Err ==> outcome->Err_0 != MixedError::InvalidGraph && outcome->Err_0
        != MixedError::InvalidSpectrum && !(outcome->Err_0 is LocalC2c)
}

fn mixed_outcome(outcome: Result<(), SweepError<LocalError>>) -> (result: Result<(), MixedError>)
    requires
        outcome is Err ==> !(outcome->Err_0 is Fft && outcome->Err_0->Fft_0 is LocalC2c),
    ensures
        as_mixed_sweep(result) == outcome,
        no_plan_fault(result),
{
    match outcome {
        Ok(done) => Ok(done),
        Err(SweepError::Fft(error)) => Err(MixedError::Fft(error)),
        Err(SweepError::Kernel(LocalError::C2c(error))) => Err(
            MixedError::Fft(FftError::LocalC2c(error)),
        ),
        Err(SweepError::Kernel(LocalError::R2r(error))) => Err(MixedError::LocalR2r(error)),
        Err(SweepError::Kernel(LocalError::R2c(error))) => Err(MixedError::LocalR2c(error)),
    }
}

/// Runs a real-to-real kernel of a mixed stage from `source` into `destination`.
pub fn mixed_r2r<T: Copy, F: Fn(&[T], usize) -> Result<Vec<T>, LocalError>, const N: usize, const M: usize>(
    plan: &MixedR2rLocal,
    kernel: &F,
    pencil: &Pencil<N, M>,
    axis: usize,
    source: &[T],
    destination: &mut [T],
    line: &mut Vec<T>,
) -> (outcome: Result<(), MixedError>)
    requires
        pencil.wf(),
        line_kernel::<T, T, LocalError, F>(*kernel),
    ensures
        final(line)@.len() == old(line)@.len(),
        no_plan_fault(outcome),
        swept::<T, T, LocalError, F>(
            *kernel,
            pencil.stride_along(axis as int),
            source@,
            old(destination)@,
            final(destination)@,
            old(line)@.len() as usize,
            mixed_r2r_lens(plan.plan(), old(line)@.len() as usize),
            as_mixed_sweep(outcome),
        ),
{
    let lens = SweepLens {
        source_len: plan.line_len(),
        result_len: plan.line_len(),
        result_line: line.len(),
        kind: "real line",
        call_when_empty: false,
    };
    mixed_outcome(sweep(kernel, pencil, axis, source, destination, line, lens))
}

/// Runs a real-to-real kernel of a mixed stage in place.
pub fn mixed_r2r_in_place<T: Copy, F: Fn(&[T], usize) -> Result<Vec<T>, LocalError>, const N: usize, const M: usize>(
    plan: &MixedR2rLocal,
    kernel: &F,
    pencil: &Pencil<N, M>,
    axis: usize,
    data: &mut [T],
    line: &mut Vec<T>,
) -> (outcome: Result<(), MixedError>)
    requires
        pencil.wf(),
        line_kernel::<T, T, LocalError, F>(*kernel),
    ensures
        final(line)@.len() == old(line)@.len(),
        no_plan_fault(outcome),
        swept::<T, T, LocalError, F>(
            *kernel,
            pencil.stride_along(axis as int),
            old(data)@,
            old(data)@,
            final(data)@,
            old(line)@.len() as usize,
            mixed_r2r_lens(plan.plan(), old(line)@.len() as usize),
            as_mixed_sweep(outcome),
        ),
{
    let lens = SweepLens {
        source_len: plan.line_len(),
        result_len: plan.line_len(),
        result_line: line.len(),
        kind: "real line",
        call_when_empty: false,
    };
    mixed_outcome(sweep_in_place(kernel, pencil, axis, data, line, lens))
}

/// What a complex mixed stage leaves behind.
pub open spec fn mixed_complex_done<T, F: Fn(&[T], usize) -> Result<Vec<T>, LocalError>>(
    local: MixedComplexLocal,
    kernel: F,
    stride: Option<usize>,
    source: Seq<T>,
    original: Seq<T>,
    result: Seq<T>,
    line: usize,
    outcome: Result<(), MixedError>,
) -> bool {
    match local {
        MixedComplexLocal::Identity => copied(source, original, result, outcome is Ok) && (
        outcome is Err ==> outcome->Err_0 == MixedError::Fft(FftError::PreparationFailed)),
        MixedComplexLocal::Fft(plan) => no_plan_fault(outcome) && swept::<T, T, LocalError, F>(
            kernel,
            stride,
            source,
            original,
            result,
            line,
            complex_lens(plan, line),
            as_mixed_sweep(outcome),
        ),
        MixedComplexLocal::R2r(plan) => no_plan_fault(outcome) && swept::<T, T, LocalError, F>(
            kernel,
            stride,
            source,
            original,
            result,
            line,
            mixed_r2r_lens(plan.plan(), line),
            as_mixed_sweep(outcome),
        ),
    }
}

/// Runs a complex mixed stage from `source` into `destination`.
pub fn mixed_complex<T: Copy, F: Fn(&[T], usize) -> Result<Vec<T>, LocalError>, const N: usize, const M: usize>(
    local: &MixedComplexLocal,
    kernel: &F,
    pencil: &Pencil<N, M>,
    axis: usize,
    source: &[T],
    destination: &mut [T],
    line: &mut Vec<T>,
) -> (outcome: Result<(), MixedError>)
    requires
        pencil.wf(),
        line_kernel::<T, T, LocalError, F>(*kernel),
    ensures
        final(line)@.len() == old(line)@.len(),
        mixed_complex_done::<T, F>(
            *local,
            *kernel,
            pencil.stride_along(axis as int),
            source@,
            old(destination)@,
            final(destination)@,
            old(line)@.len() as usize,
            outcome,
        ),
{
    match local {
        MixedComplexLocal::Identity => {
            if source.len() != destination.len() {
                return Err(MixedError::Fft(FftError::PreparationFailed));
            }
            copy_all(source, destination);
            Ok(())
        },
        MixedComplexLocal::Fft(plan) => {
            let lens = SweepLens {
                source_len: plan.line_len,
                result_len: plan.line_len,
                result_line: line.len(),
                kind: "complex line",
                call_when_empty: false,
            };
            mixed_outcome(sweep(kernel, pencil, axis, source, destination, line, lens))
        },
        MixedComplexLocal::R2r(plan) => mixed_r2r(
            plan,
            kernel,
            pencil,
            axis,
            source,
            destination,
            line,
        ),
    }
}

/// Runs a complex mixed stage in place.
pub fn mixed_complex_in_place<T: Copy, F: Fn(&[T], usize) -> Result<Vec<T>, LocalError>, const N: usize, const M: usize>(
    local: &MixedComplexLocal,
    kernel: &F,
    pencil: &Pencil<N, M>,
    axis: usize,
    data: &mut [T],
    line: &mut Vec<T>,
) -> (outcome: Result<(), MixedError>)
    requires
        pencil.wf(),
        line_kernel::<T, T, LocalError, F>(*kernel),
    ensures
        final(line)@.len() == old(line)@.len(),
        mixed_complex_done::<T, F>(
            *local,
            *kernel,
            pencil.stride_along(axis as int),
            old(data)@,
            old(data)@,
            final(data)@,
            old(line)@.len() as usize,
            outcome,
        ),
{
    match local {
        MixedComplexLocal::Identity => Ok(()),
        MixedComplexLocal::Fft(plan) => {
            let lens = SweepLens {
                source_len: plan.line_len,
                result_len: plan.line_len,
                result_line: line.len(),
                kind: "complex line",
                call_when_empty: false,
            };
            mixed_outcome(sweep_in_place(kernel, pencil, axis, data, line, lens))
        },
        MixedComplexLocal::R2r(plan) => mixed_r2r_in_place(plan, kernel, pencil, axis, data, line),
    }
}

/// What a real mixed stage before the boundary leaves behind.
pub open spec fn mixed_real_prefix_done<T, F: Fn(&[T], usize) -> Result<Vec<T>, LocalError>>(
    local: MixedRealLocal,
    kernel: F,
    stride: Option<usize>,
    source: Seq<T>,
    original: Seq<T>,
    result: Seq<T>,
    line: usize,
    outcome: Result<(), MixedError>,
) -> bool {
    match local {
        MixedRealLocal::Identity => copied(source, original, result, outcome is Ok) && (
        outcome is Err ==> outcome->Err_0 == MixedError::Fft(FftError::PreparationFailed)),
        MixedRealLocal::R2r(plan) => no_plan_fault(outcome) && swept::<T, T, LocalError, F>(
            kernel,
            stride,
            source,
            original,
            result,
            line,
            mixed_r2r_lens(plan.plan(), line),
            as_mixed_sweep(outcome),
        ),
        MixedRealLocal::Rfft(_) => outcome == Err::<(), MixedError>(MixedError::InvalidGraph)
            && result == original,
    }
}

/// Runs a real mixed stage before the boundary from `source` into `destination`.
pub fn mixed_real_prefix<T: Copy, F: Fn(&[T], usize) -> Result<Vec<T>, LocalError>, const N: usize, const M: usize>(
    local: &MixedRealLocal,
    kernel: &F,
    pencil: &Pencil<N, M>,
    axis: usize,
    source: &[T],
    destination: &mut [T],
    line: &mut Vec<T>,
) -> (outcome: Result<(), MixedError>)
    requires
        pencil.wf(),
        line_kernel::<T, T, LocalError, F>(*kernel),
    ensures
        final(line)@.len() == old(line)@.len(),
        mixed_real_prefix_done::<T, F>(
            *local,
            *kernel,
            pencil.stride_along(axis as int),
            source@,
            old(destination)@,
            final(destination)@,
            old(line)@.len() as usize,
            outcome,
        ),
{
    match local {
        MixedRealLocal::Identity => {
            if source.len() != destination.len() {
                return Err(MixedError::Fft(FftError::PreparationFailed));
            }
            copy_all(source, destination);
            Ok(())
        },
        MixedRealLocal::R2r(plan) => mixed_r2r(
            plan,
            kernel,
            pencil,
            axis,
            source,
            destination,
            line,
        ),
        MixedRealLocal::Rfft(_) => Err(MixedError::InvalidGraph),
    }
}

/// Runs a real mixed stage before the boundary in place.
pub fn mixed_real_prefix_in_place<T: Copy, F: Fn(&[T], usize) -> Result<Vec<T>, LocalError>, const N: usize, const M: usize>(
    local: &MixedRealLocal,
    kernel: &F,
    pencil: &Pencil<N, M>,
    axis: usize,
    data: &mut [T],
    line: &mut Vec<T>,
) -> (outcome: Result<(), MixedError>)
    requires
        pencil.wf(),
        line_kernel::<T, T, LocalError, F>(*kernel),
    ensures
        final(line)@.len() == old(line)@.len(),
        mixed_real_prefix_done::<T, F>(
            *local,
            *kernel,
            pencil.stride_along(axis as int),
            old(data)@,
            old(data)@,
            final(data)@,
            old(line)@.len() as usize,
            outcome,
        ),
{
    match local {
        MixedRealLocal::Identity => Ok(()),
        MixedRealLocal::R2r(plan) => mixed_r2r_in_place(plan, kernel, pencil, axis, data, line),
        MixedRealLocal::Rfft(_) => Err(MixedError::InvalidGraph),
    }
}

/// Runs the boundary kernel of a mixed plan from real lines to half-complex lines.
pub fn mixed_rfft_forward<R: Copy, F: Fn(&[R], usize) -> Result<Vec<Complex<R>>, LocalError>, const N: usize, const M: usize>(
    plan: &LocalR2cPlan,
    kernel: &F,
    pencil: &Pencil<N, M>,
    axis: usize,
    source: &[R],
    destination: &mut [Complex<R>],
    real_source_line: &mut Vec<R>,
    complex_line_len: usize,
) -> (outcome: Result<(), MixedError>)
    requires
        pencil.wf(),
        line_kernel::<R, Complex<R>, LocalError, F>(*kernel),
    ensures
        final(real_source_line)@.len() == old(real_source_line)@.len(),
        no_plan_fault(outcome),
        swept::<R, Complex<R>, LocalError, F>(
            *kernel,
            pencil.stride_along(axis as int),
            source@,
            old(destination)@,
            final(destination)@,
            old(real_source_line)@.len() as usize,
            boundary_forward_lens(*plan, complex_line_len),
            as_mixed_sweep(outcome),
        ),
{
    let lens = SweepLens {
        source_len: plan.real_len,
        result_len: plan.complex_len,
        result_line: complex_line_len,
        kind: "real/complex line",
        call_when_empty: false,
    };
    mixed_outcome(sweep(kernel, pencil, axis, source, destination, real_source_line, lens))
}

/// Runs the boundary kernel of a mixed plan from half-complex lines to real lines.
pub fn mixed_rfft_reverse<R: Copy, F: Fn(&[Complex<R>], usize) -> Result<Vec<R>, LocalError>, const N: usize, const M: usize>(
    plan: &LocalR2cPlan,
    kernel: &F,
    pencil: &Pencil<N, M>,
    axis: usize,
    source: &[Complex<R>],
    destination: &mut [R],
    complex_source_line: &mut Vec<Complex<R>>,
    real_line_len: usize,
) -> (outcome: Result<(), MixedError>)
    requires
        pencil.wf(),
        line_kernel::<Complex<R>, R, LocalError, F>(*kernel),
    ensures
        final(complex_source_line)@.len() == old(complex_source_line)@.len(),
        no_plan_fault(outcome),
        swept::<Complex<R>, R, LocalError, F>(
            *kernel,
            pencil.stride_along(axis as int),
            source@,
            old(destination)@,
            final(destination)@,
            old(complex_source_line)@.len() as usize,
            boundary_reverse_lens(*plan, real_line_len),
            as_mixed_sweep(outcome),
        ),
{
    let lens = SweepLens {
        source_len: plan.complex_len,
        result_len: plan.real_len,
        result_line: real_line_len,
        kind: "complex/real line",
        call_when_empty: false,
    };
    mixed_outcome(sweep(kernel, pencil, axis, source, destination, complex_source_line, lens))
}

} // verus!
