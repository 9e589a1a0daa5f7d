//! The local stage of each plan family: nothing, a copy, or a sweep of the stage's kernel.

use vstd::prelude::*;

use crate::error::FftError;
use crate::error::LocalC2cError;
use crate::error::LocalR2cError;
use crate::error::LocalR2rError;
use crate::error::MixedError;
use crate::error::R2cError;
use crate::error::R2rError;
use crate::layout::Pencil;
use crate::lines::copy_all;
use crate::lines::line_kernel;
use crate::local::LocalC2cPlan;
use crate::local::LocalR2cPlan;
use crate::local::LocalR2rPlan;
use crate::local::LocalTransform;
use crate::local::R2rLocal;
use crate::scalar::Complex;
use crate::sweep::sweep;
use crate::sweep::sweep_in_place;
use crate::sweep::swept;
use crate::sweep::SweepError;
use crate::sweep::SweepLens;

verus! {

/// What the kernel of a mixed stage reports.
#[derive(Clone, Copy, Debug, PartialEq, Eq)]
pub enum LocalError {
    /// From a complex plan.
    C2c(LocalC2cError),
    /// From a real-to-complex plan.
    R2c(LocalR2cError),
    /// From a real-to-real plan.
    R2r(LocalR2rError),
}

/// A sweep of a real-to-real stage.
pub open spec fn r2r_lens(plan: LocalR2rPlan, line: usize) -> SweepLens {
    SweepLens {
        source_len: plan.line_len,
        result_len: plan.line_len,
        result_line: line,
        kind: "real line",
        call_when_empty: true,
    }
}

/// A sweep of a real-to-real stage of a mixed plan.
pub open spec fn mixed_r2r_lens(plan: LocalR2rPlan, line: usize) -> SweepLens {
    SweepLens {
        source_len: plan.line_len,
        result_len: plan.line_len,
        result_line: line,
        kind: "real line",
        call_when_empty: false,
    }
}

/// A sweep of a complex stage.
pub open spec fn complex_lens(plan: LocalC2cPlan, line: usize) -> SweepLens {
    SweepLens {
        source_len: plan.line_len,
        result_len: plan.line_len,
        result_line: line,
        kind: "complex line",
        call_when_empty: false,
    }
}

/// A sweep of the boundary from real to complex lines.
pub open spec fn boundary_forward_lens(plan: LocalR2cPlan, complex_line: usize) -> SweepLens {
    SweepLens {
        source_len: plan.real_len,
        result_len: plan.complex_len,
        result_line: complex_line,
        kind: "real/complex line",
        call_when_empty: false,
    }
}

/// A sweep of the boundary from complex to real lines.
pub open spec fn boundary_reverse_lens(plan: LocalR2cPlan, real_line: usize) -> SweepLens {
    SweepLens {
        source_len: plan.complex_len,
        result_len: plan.real_len,
        result_line: real_line,
        kind: "complex/real line",
        call_when_empty: false,
    }
}

/// The outcome of a real-to-real stage as the sweep reported it.
pub open spec fn as_r2r_sweep(outcome: Result<(), R2rError>) -> Result<
    (),
    SweepError<LocalR2rError>,
> {
    match outcome {
        Ok(done) => Ok(done),
        Err(R2rError::Fft(error)) => Err(SweepError::Fft(error)),
        Err(R2rError::LocalR2r(error)) => Err(SweepError::Kernel(error)),
    }
}

/// The outcome of a real-to-complex boundary as the sweep reported it.
pub open spec fn as_r2c_sweep(outcome: Result<(), R2cError>) -> Result<
    (),
    SweepError<LocalR2cError>,
> {
    match outcome {
        Ok(done) => Ok(done),
        Err(R2cError::Fft(error)) => Err(SweepError::Fft(error)),
        Err(R2cError::LocalR2c(error)) => Err(SweepError::Kernel(error)),
        Err(R2cError::InvalidSpectrum) => Err(SweepError::Fft(FftError::PreparationFailed)),
    }
}

/// The outcome of a complex stage as the sweep reported it.
pub open spec fn as_c2c_sweep(outcome: Result<(), FftError>) -> Result<
    (),
    SweepError<LocalC2cError>,
> {
    match outcome {
        Ok(done) => Ok(done),
        Err(FftError::LocalC2c(error)) => Err(SweepError::Kernel(error)),
        Err(error) => Err(SweepError::Fft(error)),
    }
}

/// The outcome of a mixed stage as the sweep reported it.
pub open spec fn as_mixed_sweep(outcome: Result<(), MixedError>) -> Result<
    (),
    SweepError<LocalError>,
> {
    match outcome {
        Ok(done) => Ok(done),
        Err(MixedError::Fft(FftError::LocalC2c(error))) => Err(
            SweepError::Kernel(LocalError::C2c(error)),
        ),
        Err(MixedError::LocalR2r(error)) => Err(SweepError::Kernel(LocalError::R2r(error))),
        Err(MixedError::LocalR2c(error)) => Err(SweepError::Kernel(LocalError::R2c(error))),
        Err(MixedError::Fft(error)) => Err(SweepError::Fft(error)),
        _ => Err(SweepError::Fft(FftError::PreparationFailed)),
    }
}

/// The outcome of a stage without a transform, which copies.
pub open spec fn copied<T>(
    source: Seq<T>,
    original: Seq<T>,
    result: Seq<T>,
    succeeded: bool,
) -> bool {
    if source.len() == original.len() {
        succeeded && result == source
    } else {
        !succeeded && result == original
    }
}

fn r2r_outcome(outcome: Result<(), SweepError<LocalR2rError>>) -> (result: Result<(), R2rError>)
    ensures
        as_r2r_sweep(result) == outcome,
{
    match outcome {
        Ok(done) => Ok(done),
        Err(SweepError::Fft(error)) => Err(R2rError::Fft(error)),
        Err(SweepError::Kernel(error)) => Err(R2rError::LocalR2r(error)),
    }
}

fn r2c_outcome(outcome: Result<(), SweepError<LocalR2cError>>) -> (result: Result<(), R2cError>)
    ensures
        as_r2c_sweep(result) == outcome,
        result is Err ==> result->Err_0 != R2cError::InvalidSpectrum,
{
    match outcome {
        Ok(done) => Ok(done),
        Err(SweepError::Fft(error)) => Err(R2cError::Fft(error)),
        Err(SweepError::Kernel(error)) => Err(R2cError::LocalR2c(error)),
    }
}

/// Runs the kernel of a real-to-real stage from `source` into `destination`.
pub fn execute_local<T: Copy, F: Fn(&[T], usize) -> Result<Vec<T>, LocalR2rError>, const N: usize, const M: usize>(
    local: &R2rLocal,
    kernel: &F,
    pencil: &Pencil<N, M>,
    axis: usize,
    source: &[T],
    destination: &mut [T],
    line_buffer: &mut Vec<T>,
) -> (outcome: Result<(), R2rError>)
    requires
        pencil.wf(),
        line_kernel::<T, T, LocalR2rError, F>(*kernel),
    ensures
        final(line_buffer)@.len() == old(line_buffer)@.len(),
        match local.plan() {
            None => copied(source@, old(destination)@, final(destination)@, outcome is Ok) && (
            outcome is Err ==> outcome->Err_0 == R2rError::Fft(FftError::PreparationFailed)),
            Some(plan) => swept::<T, T, LocalR2rError, F>(
                *kernel,
                pencil.stride_along(axis as int),
                source@,
                old(destination)@,
                final(destination)@,
                old(line_buffer)@.len() as usize,
                r2r_lens(plan, old(line_buffer)@.len() as usize),
                as_r2r_sweep(outcome),
            ),
        },
{
    let plan: LocalR2rPlan = match local {
        R2rLocal::Identity => {
            if source.len() != destination.len() {
                return Err(R2rError::Fft(FftError::PreparationFailed));
            }
            copy_all(source, destination);
            return Ok(());
        },
        R2rLocal::Transform(plan) => *plan,
        R2rLocal::Hartley(plan) => *plan,
    };
    let lens = SweepLens {
        source_len: plan.line_len,
        result_len: plan.line_len,
        result_line: line_buffer.len(),
        kind: "real line",
        call_when_empty: true,
    };
    r2r_outcome(sweep(kernel, pencil, axis, source, destination, line_buffer, lens))
}

/// Runs the kernel of a real-to-real stage in place.
pub fn execute_local_in_place<T: Copy, F: Fn(&[T], usize) -> Result<Vec<T>, LocalR2rError>, const N: usize, const M: usize>(
    local: &R2rLocal,
    kernel: &F,
    pencil: &Pencil<N, M>,
    axis: usize,
    data: &mut [T],
    line_buffer: &mut Vec<T>,
) -> (outcome: Result<(), R2rError>)
    requires
        pencil.wf(),
        line_kernel::<T, T, LocalR2rError, F>(*kernel),
    ensures
        final(line_buffer)@.len() == old(line_buffer)@.len(),
        match local.plan() {
            None => outcome is Ok && final(data)@ == old(data)@,
            Some(plan) => swept::<T, T, LocalR2rError, F>(
                *kernel,
                pencil.stride_along(axis as int),
                old(data)@,
                old(data)@,
                final(data)@,
                old(line_buffer)@.len() as usize,
                r2r_lens(plan, old(line_buffer)@.len() as usize),
                as_r2r_sweep(outcome),
            ),
        },
{
    let plan: LocalR2rPlan = match local {
        R2rLocal::Identity => {
            return Ok(());
        },
        R2rLocal::Transform(plan) => *plan,
        R2rLocal::Hartley(plan) => *plan,
    };
    let lens = SweepLens {
        source_len: plan.line_len,
        result_len: plan.line_len,
        result_line: line_buffer.len(),
        kind: "real line",
        call_when_empty: true,
    };
    r2r_outcome(sweep_in_place(kernel, pencil, axis, data, line_buffer, lens))
}

/// Runs the kernel of a complex stage from `source` into `destination`. The boundary itself is
/// no complex stage.
pub fn execute_complex<T: Copy, F: Fn(&[T], usize) -> Result<Vec<T>, LocalC2cError>, const N: usize, const M: usize>(
    local: &LocalTransform,
    kernel: &F,
    pencil: &Pencil<N, M>,
    axis: usize,
    source: &[T],
    destination: &mut [T],
    line_buffer: &mut Vec<T>,
) -> (outcome: Result<(), FftError>)
    requires
        pencil.wf(),
        line_kernel::<T, T, LocalC2cError, F>(*kernel),
    ensures
        final(line_buffer)@.len() == old(line_buffer)@.len(),
        match *local {
            LocalTransform::Identity => copied(
                source@,
                old(destination)@,
                final(destination)@,
                outcome is Ok,
            ) && (outcome is Err ==> outcome->Err_0 == FftError::PreparationFailed),
            LocalTransform::Complex(plan) => swept::<T, T, LocalC2cError, F>(
                *kernel,
                pencil.stride_along(axis as int),
                source@,
                old(destination)@,
                final(destination)@,
                old(line_buffer)@.len() as usize,
                complex_lens(plan, old(line_buffer)@.len() as usize),
                as_c2c_sweep(outcome),
            ),
            LocalTransform::RealComplex(_) => outcome == Err::<(), FftError>(
                FftError::PreparationFailed,
            ) && final(destination)@ == old(destination)@,
        },
{
    match local {
        LocalTransform::Identity => {
            if source.len() != destination.len() {
                return Err(FftError::PreparationFailed);
            }
            copy_all(source, destination);
            Ok(())
        },
        LocalTransform::RealComplex(_) => Err(FftError::PreparationFailed),
        LocalTransform::Complex(plan) => {
            let lens = SweepLens {
                source_len: plan.line_len,
                result_len: plan.line_len,
                result_line: line_buffer.len(),
                kind: "complex line",
                call_when_empty: false,
            };
            match sweep(kernel, pencil, axis, source, destination, line_buffer, lens) {
                Ok(done) => Ok(done),
                Err(SweepError::Fft(error)) => Err(error),
                Err(SweepError::Kernel(error)) => Err(FftError::LocalC2c(error)),
            }
        },
    }
}

/// Runs the kernel of a complex stage in place. The boundary itself is no complex stage.
pub fn execute_complex_in_place<T: Copy, F: Fn(&[T], usize) -> Result<Vec<T>, LocalC2cError>, const N: usize, const M: usize>(
    local: &LocalTransform,
    kernel: &F,
    pencil: &Pencil<N, M>,
    axis: usize,
    data: &mut [T],
    line_buffer: &mut Vec<T>,
) -> (outcome: Result<(), FftError>)
    requires
        pencil.wf(),
        line_kernel::<T, T, LocalC2cError, F>(*kernel),
    ensures
        final(line_buffer)@.len() == old(line_buffer)@.len(),
        match *local {
            LocalTransform::Identity => outcome is Ok && final(data)@ == old(data)@,
            LocalTransform::Complex(plan) => swept::<T, T, LocalC2cError, F>(
                *kernel,
                pencil.stride_along(axis as int),
                old(data)@,
                old(data)@,
                final(data)@,
                old(line_buffer)@.len() as usize,
                complex_lens(plan, old(line_buffer)@.len() as usize),
                as_c2c_sweep(outcome),
            ),
            LocalTransform::RealComplex(_) => outcome == Err::<(), FftError>(
                FftError::PreparationFailed,
            ) && final(data)@ == old(data)@,
        },
{
    match local {
        LocalTransform::Identity => Ok(()),
        LocalTransform::RealComplex(_) => Err(FftError::PreparationFailed),
        LocalTransform::Complex(plan) => {
            let lens = SweepLens {
                source_len: plan.line_len,
                result_len: plan.line_len,
                result_line: line_buffer.len(),
                kind: "complex line",
                call_when_empty: false,
            };
            match sweep_in_place(kernel, pencil, axis, data, line_buffer, lens) {
                Ok(done) => Ok(done),
                Err(SweepError::Fft(error)) => Err(error),
                Err(SweepError::Kernel(error)) => Err(FftError::LocalC2c(error)),
            }
        },
    }
}

/// Runs the boundary kernel from real lines to half-complex lines.
pub fn execute_strided_real_forward<R: Copy, F: Fn(&[R], usize) -> Result<Vec<Complex<R>>, LocalR2cError>, const N: usize, const M: usize>(
    plan: &LocalR2cPlan,
    kernel: &F,
    pencil: &Pencil<N, M>,
    axis: usize,
    source: &[R],
    destination: &mut [Complex<R>],
    real_source_line: &mut Vec<R>,
    complex_line_len: usize,
) -> (outcome: Result<(), R2cError>)
    requires
        pencil.wf(),
        line_kernel::<R, Complex<R>, LocalR2cError, F>(*kernel),
    ensures
        final(real_source_line)@.len() == old(real_source_line)@.len(),
        outcome is Err ==> outcome->Err_0 != R2cError::InvalidSpectrum,
        swept::<R, Complex<R>, LocalR2cError, F>(
            *kernel,
            pencil.stride_along(axis as int),
            source@,
            old(destination)@,
            final(destination)@,
            old(real_source_line)@.len() as usize,
            boundary_forward_lens(*plan, complex_line_len),
            as_r2c_sweep(outcome),
        ),
{
    let lens = SweepLens {
        source_len: plan.real_len,
        result_len: plan.complex_len,
        result_line: complex_line_len,
        kind: "real/complex line",
        call_when_empty: false,
    };
    r2c_outcome(sweep(kernel, pencil, axis, source, destination, real_source_line, lens))
}

/// Runs the boundary kernel from half-complex lines to real lines.
pub fn execute_strided_real_reverse<R: Copy, F: Fn(&[Complex<R>], usize) -> Result<Vec<R>, LocalR2cError>, const N: usize, const M: usize>(
    plan: &LocalR2cPlan,
    kernel: &F,
    pencil: &Pencil<N, M>,
    axis: usize,
    source: &[Complex<R>],
    destination: &mut [R],
    complex_source_line: &mut Vec<Complex<R>>,
    real_line_len: usize,
) -> (outcome: Result<(), R2cError>)
    requires
        pencil.wf(),
        line_kernel::<Complex<R>, R, LocalR2cError, F>(*kernel),
    ensures
        final(complex_source_line)@.len() == old(complex_source_line)@.len(),
        outcome is Err ==> outcome->Err_0 != R2cError::InvalidSpectrum,
        swept::<Complex<R>, R, LocalR2cError, F>(
            *kernel,
            pencil.stride_along(axis as int),
            source@,
            old(destination)@,
            final(destination)@,
            old(complex_source_line)@.len() as usize,
            boundary_reverse_lens(*plan, real_line_len),
            as_r2c_sweep(outcome),
        ),
{
    let lens = SweepLens {
        source_len: plan.complex_len,
        result_len: plan.real_len,
        result_line: real_line_len,
        kind: "complex/real line",
        call_when_empty: false,
    };
    r2c_outcome(sweep(kernel, pencil, axis, source, destination, complex_source_line, lens))
}

} // verus!
