//! The stages of each kind of plan as work that can be applied to arrays.

use vstd::prelude::*;

use crate::error::FftError;
use crate::error::LocalC2cError;
use crate::error::LocalR2cError;
use crate::error::LocalR2rError;
use crate::error::MixedError;
use crate::error::R2cError;
use crate::error::R2rError;
use crate::layout::Pencil;
use crate::lines::line_kernel;
use crate::local::LocalR2cPlan;
use crate::local::LocalTransform;
use crate::local::MixedComplexLocal;
use crate::local::MixedRealLocal;
use crate::local::R2rLocal;
use crate::mixed_stages::mixed_complex;
use crate::mixed_stages::mixed_complex_done;
use crate::mixed_stages::mixed_complex_in_place;
use crate::mixed_stages::mixed_real_prefix;
use crate::mixed_stages::mixed_real_prefix_done;
use crate::mixed_stages::mixed_real_prefix_in_place;
use crate::mixed_stages::mixed_rfft_forward;
use crate::mixed_stages::mixed_rfft_reverse;
use crate::mixed_stages::no_plan_fault;
use crate::scalar::Complex;
use crate::stages::as_c2c_sweep;
use crate::stages::as_mixed_sweep;
use crate::stages::as_r2c_sweep;
use crate::stages::as_r2r_sweep;
use crate::stages::boundary_forward_lens;
use crate::stages::boundary_reverse_lens;
use crate::stages::complex_lens;
use crate::stages::copied;
use crate::stages::execute_complex;
use crate::stages::execute_complex_in_place;
use crate::stages::execute_local;
use crate::stages::execute_local_in_place;
use crate::stages::execute_strided_real_forward;
use crate::stages::execute_strided_real_reverse;
use crate::stages::r2r_lens;
use crate::stages::LocalError;
use crate::station::LocalStation;
use crate::station::Station;
use crate::sweep::swept;
use crate::world::lift;
use crate::world::lifted;

verus! {

/// A stage of a real-to-real or Hartley plan.
#[derive(Debug)]
pub struct R2rStation<'a, F, const N: usize, const M: usize> {
    /// The kernel.
    pub kernel: &'a F,
    /// What the stage does.
    pub local: R2rLocal,
    /// The layout whose lines it goes along.
    pub pencil: Pencil<N, M>,
    /// The axis that it goes along.
    pub axis: usize,
}

impl<'a, T: Copy, F: Fn(&[T], usize) -> Result<Vec<T>, LocalR2rError>, const N: usize, const M: usize> Station<T, T, R2rError> for R2rStation<'a, F, N, M> {
    open spec fn ready(&self) -> bool {
        &&& self.pencil.wf()
        &&& line_kernel::<T, T, LocalR2rError, F>(*self.kernel)
    }

    open spec fn leaves(
        &self,
        source: Seq<T>,
        original: Seq<T>,
        result: Seq<T>,
        line: usize,
        outcome: Result<(), R2rError>,
    ) -> bool {
        match self.local.plan() {
            None => copied(source, original, result, outcome is Ok) && (outcome is Err
                ==> outcome->Err_0 == R2rError::Fft(FftError::PreparationFailed)),
            Some(plan) => swept::<T, T, LocalR2rError, F>(
                *self.kernel,
                self.pencil.stride_along(self.axis as int),
                source,
                original,
                result,
                line,
                r2r_lens(plan, line),
                as_r2r_sweep(outcome),
            ),
        }
    }

    fn run(&self, source: &[T], destination: &mut [T], line: &mut Vec<T>) -> (outcome:
        Result<(), R2rError>) {
        execute_local(
            &self.local,
            self.kernel,
            &self.pencil,
            self.axis,
            source,
            destination,
            line,
        )
    }
}

impl<'a, T: Copy, F: Fn(&[T], usize) -> Result<Vec<T>, LocalR2rError>, const N: usize, const M: usize> LocalStation<T, R2rError> for R2rStation<'a, F, N, M> {
    fn run_in_place(&self, data: &mut [T], line: &mut Vec<T>) -> (outcome: Result<
        (),
        R2rError,
    >) {
        execute_local_in_place(&self.local, self.kernel, &self.pencil, self.axis, data, line)
    }
}

/// What a complex stage of a real-to-complex plan leaves behind.
pub open spec fn complex_done<T, F: Fn(&[T], usize) -> Result<Vec<T>, LocalC2cError>>(
    local: LocalTransform,
    kernel: F,
    stride: Option<usize>,
    source: Seq<T>,
    original: Seq<T>,
    result: Seq<T>,
    line: usize,
    outcome: Result<(), FftError>,
) -> bool {
    match local {
        LocalTransform::Identity => copied(source, original, result, outcome is Ok) && (
        outcome is Err ==> outcome->Err_0 == FftError::PreparationFailed),
        LocalTransform::Complex(plan) => swept::<T, T, LocalC2cError, F>(
            kernel,
            stride,
            source,
            original,
            result,
            line,
            complex_lens(plan, line),
            as_c2c_sweep(outcome),
        ),
        LocalTransform::RealComplex(_) => outcome == Err::<(), FftError>(
            FftError::PreparationFailed,
        ) && result == original,
    }
}

/// A complex stage of a real-to-complex plan.
#[derive(Debug)]
pub struct ComplexStation<'a, F, const N: usize, const M: usize> {
    /// The kernel.
    pub kernel: &'a F,
    /// What the stage does.
    pub local: LocalTransform,
    /// The layout whose lines it goes along.
    pub pencil: Pencil<N, M>,
    /// The axis that it goes along.
    pub axis: usize,
}

impl<'a, T: Copy, F: Fn(&[T], usize) -> Result<Vec<T>, LocalC2cError>, const N: usize, const M: usize> Station<T, T, R2cError> for ComplexStation<'a, F, N, M> {
    open spec fn ready(&self) -> bool {
        &&& self.pencil.wf()
        &&& line_kernel::<T, T, LocalC2cError, F>(*self.kernel)
    }

    open spec fn leaves(
        &self,
        source: Seq<T>,
        original: Seq<T>,
        result: Seq<T>,
        line: usize,
        outcome: Result<(), R2cError>,
    ) -> bool {
        exists|local: Result<(), FftError>|
            {
                &&& #[trigger] complex_done::<T, F>(
                    self.local,
                    *self.kernel,
                    self.pencil.stride_along(self.axis as int),
                    source,
                    original,
                    result,
                    line,
                    local,
                )
                &&& outcome == lifted::<(), R2cError>(local)
            }
    }

    fn run(&self, source: &[T], destination: &mut [T], line: &mut Vec<T>) -> (outcome:
        Result<(), R2cError>) {
        let local: Result<(), FftError> = execute_complex(
            &self.local,
            self.kernel,
            &self.pencil,
            self.axis,
            source,
            destination,
            line,
        );
        assert(complex_done::<T, F>(
            self.local,
            *self.kernel,
            self.pencil.stride_along(self.axis as int),
            source@,
            old(destination)@,
            destination@,
            old(line)@.len() as usize,
            local,
        ));
        lift(local)
    }
}

impl<'a, T: Copy, F: Fn(&[T], usize) -> Result<Vec<T>, LocalC2cError>, const N: usize, const M: usize> LocalStation<T, R2cError> for ComplexStation<'a, F, N, M> {
    fn run_in_place(&self, data: &mut [T], line: &mut Vec<T>) -> (outcome: Result<
        (),
        R2cError,
    >) {
        let local: Result<(), FftError> = execute_complex_in_place(
            &self.local,
            self.kernel,
            &self.pencil,
            self.axis,
            data,
            line,
        );
        assert(complex_done::<T, F>(
            self.local,
            *self.kernel,
            self.pencil.stride_along(self.axis as int),
            old(data)@,
            old(data)@,
            data@,
            old(line)@.len() as usize,
            local,
        ));
        lift(local)
    }
}

/// The boundary of a real-to-complex plan, from real to half-complex lines.
#[derive(Debug)]
pub struct ForwardCrossing<'a, F, const N: usize, const M: usize> {
    /// The kernel.
    pub kernel: &'a F,
    /// How long its lines are.
    pub plan: LocalR2cPlan,
    /// Elements of the buffer for a result line.
    pub result_line: usize,
    /// The layout whose lines it goes along.
    pub pencil: Pencil<N, M>,
    /// The axis that it goes along.
    pub axis: usize,
}

impl<'a, R: Copy, F: Fn(&[R], usize) -> Result<Vec<Complex<R>>, LocalR2cError>, const N: usize, const M: usize> Station<R, Complex<R>, R2cError> for ForwardCrossing<'a, F, N, M> {
    open spec fn ready(&self) -> bool {
        &&& self.pencil.wf()
        &&& line_kernel::<R, Complex<R>, LocalR2cError, F>(*self.kernel)
    }

    open spec fn leaves(
        &self,
        source: Seq<R>,
        original: Seq<Complex<R>>,
        result: Seq<Complex<R>>,
        line: usize,
        outcome: Result<(), R2cError>,
    ) -> bool {
        &&& outcome is Err ==> outcome->Err_0 != R2cError::InvalidSpectrum
        &&& swept::<R, Complex<R>, LocalR2cError, F>(
            *self.kernel,
            self.pencil.stride_along(self.axis as int),
            source,
            original,
            result,
            line,
            boundary_forward_lens(self.plan, self.result_line),
            as_r2c_sweep(outcome),
        )
    }

    fn run(&self, source: &[R], destination: &mut [Complex<R>], line: &mut Vec<R>) -> (outcome:
        Result<(), R2cError>) {
        execute_strided_real_forward(
            &self.plan,
            self.kernel,
            &self.pencil,
            self.axis,
            source,
            destination,
            line,
            self.result_line,
        )
    }
}

/// The boundary of a real-to-complex plan, from half-complex to real lines.
#[derive(Debug)]
pub struct ReverseCrossing<'a, F, const N: usize, const M: usize> {
    /// The kernel.
    pub kernel: &'a F,
    /// How long its lines are.
    pub plan: LocalR2cPlan,
    /// Elements of the buffer for a result line.
    pub result_line: usize,
    /// The layout whose lines it goes along.
    pub pencil: Pencil<N, M>,
    /// The axis that it goes along.
    pub axis: usize,
}

impl<'a, R: Copy, F: Fn(&[Complex<R>], usize) -> Result<Vec<R>, LocalR2cError>, const N: usize, const M: usize> Station<Complex<R>, R, R2cError> for ReverseCrossing<'a, F, N, M> {
    open spec fn ready(&self) -> bool {
        &&& self.pencil.wf()
        &&& line_kernel::<Complex<R>, R, LocalR2cError, F>(*self.kernel)
    }

    open spec fn leaves(
        &self,
        source: Seq<Complex<R>>,
        original: Seq<R>,
        result: Seq<R>,
        line: usize,
        outcome: Result<(), R2cError>,
    ) -> bool {
        &&& outcome is Err ==> outcome->Err_0 != R2cError::InvalidSpectrum
        &&& swept::<Complex<R>, R, LocalR2cError, F>(
            *self.kernel,
            self.pencil.stride_along(self.axis as int),
            source,
            original,
            result,
            line,
            boundary_reverse_lens(self.plan, self.result_line),
            as_r2c_sweep(outcome),
        )
    }

    fn run(&self, source: &[Complex<R>], destination: &mut [R], line: &mut Vec<Complex<R>>) -> (outcome:
        Result<(), R2cError>) {
        execute_strided_real_reverse(
            &self.plan,
            self.kernel,
            &self.pencil,
            self.axis,
            source,
            destination,
            line,
            self.result_line,
        )
    }
}

/// The boundary of a mixed real-to-complex plan, from real to half-complex lines.
#[derive(Debug)]
pub struct MixedForwardCrossing<'a, F, const N: usize, const M: usize> {
    /// The kernel.
    pub kernel: &'a F,
    /// How long its lines are.
    pub plan: LocalR2cPlan,
    /// Elements of the buffer for a result line.
    pub result_line: usize,
    /// The layout whose lines it goes along.
    pub pencil: Pencil<N, M>,
    /// The axis that it goes along.
    pub axis: usize,
}

impl<'a, R: Copy, F: Fn(&[R], usize) -> Result<Vec<Complex<R>>, LocalError>, const N: usize, const M: usize> Station<R, Complex<R>, MixedError> for MixedForwardCrossing<'a, F, N, M> {
    open spec fn ready(&self) -> bool {
        &&& self.pencil.wf()
        &&& line_kernel::<R, Complex<R>, LocalError, F>(*self.kernel)
    }

    open spec fn leaves(
        &self,
        source: Seq<R>,
        original: Seq<Complex<R>>,
        result: Seq<Complex<R>>,
        line: usize,
        outcome: Result<(), MixedError>,
    ) -> bool {
        &&& no_plan_fault(outcome)
        &&& swept::<R, Complex<R>, LocalError, F>(
            *self.kernel,
            self.pencil.stride_along(self.axis as int),
            source,
            original,
            result,
            line,
            boundary_forward_lens(self.plan, self.result_line),
            as_mixed_sweep(outcome),
        )
    }

    fn run(&self, source: &[R], destination: &mut [Complex<R>], line: &mut Vec<R>) -> (outcome:
        Result<(), MixedError>) {
        mixed_rfft_forward(
            &self.plan,
            self.kernel,
            &self.pencil,
            self.axis,
            source,
            destination,
            line,
            self.result_line,
        )
    }
}

/// The boundary of a mixed real-to-complex plan, from half-complex to real lines.
#[derive(Debug)]
pub struct MixedReverseCrossing<'a, F, const N: usize, const M: usize> {
    /// The kernel.
    pub kernel: &'a F,
    /// How long its lines are.
    pub plan: LocalR2cPlan,
    /// Elements of the buffer for a result line.
    pub result_line: usize,
    /// The layout whose lines it goes along.
    pub pencil: Pencil<N, M>,
    /// The axis that it goes along.
    pub axis: usize,
}

impl<'a, R: Copy, F: Fn(&[Complex<R>], usize) -> Result<Vec<R>, LocalError>, const N: usize, const M: usize> Station<Complex<R>, R, MixedError> for MixedReverseCrossing<'a, F, N, M> {
    open spec fn ready(&self) -> bool {
        &&& self.pencil.wf()
        &&& line_kernel::<Complex<R>, R, LocalError, F>(*self.kernel)
    }

    open spec fn leaves(
        &self,
        source: Seq<Complex<R>>,
        original: Seq<R>,
        result: Seq<R>,
        line: usize,
        outcome: Result<(), MixedError>,
    ) -> bool {
        &&& no_plan_fault(outcome)
        &&& swept::<Complex<R>, R, LocalError, F>(
            *self.kernel,
            self.pencil.stride_along(self.axis as int),
            source,
            original,
            result,
            line,
            boundary_reverse_lens(self.plan, self.result_line),
            as_mixed_sweep(outcome),
        )
    }

    fn run(&self, source: &[Complex<R>], destination: &mut [R], line: &mut Vec<Complex<R>>) -> (outcome:
        Result<(), MixedError>) {
        mixed_rfft_reverse(
            &self.plan,
            self.kernel,
            &self.pencil,
            self.axis,
            source,
            destination,
            line,
            self.result_line,
        )
    }
}

/// A real stage of a mixed real-to-complex plan.
#[derive(Debug)]
pub struct MixedRealStation<'a, F, const N: usize, const M: usize> {
    /// The kernel.
    pub kernel: &'a F,
    /// What the stage does.
    pub local: MixedRealLocal,
    /// The layout whose lines it goes along.
    pub pencil: Pencil<N, M>,
    /// The axis that it goes along.
    pub axis: usize,
}

impl<'a, T: Copy, F: Fn(&[T], usize) -> Result<Vec<T>, LocalError>, const N: usize, const M: usize> Station<T, T, MixedError> for MixedRealStation<'a, F, N, M> {
    open spec fn ready(&self) -> bool {
        &&& self.pencil.wf()
        &&& line_kernel::<T, T, LocalError, F>(*self.kernel)
    }

    open spec fn leaves(
        &self,
        source: Seq<T>,
        original: Seq<T>,
        result: Seq<T>,
        line: usize,
        outcome: Result<(), MixedError>,
    ) -> bool {
        mixed_real_prefix_done::<T, F>(
            self.local,
            *self.kernel,
            self.pencil.stride_along(self.axis as int),
            source,
            original,
            result,
            line,
            outcome,
        )
    }

    fn run(&self, source: &[T], destination: &mut [T], line: &mut Vec<T>) -> (outcome:
        Result<(), MixedError>) {
        mixed_real_prefix(
            &self.local,
            self.kernel,
            &self.pencil,
            self.axis,
            source,
            destination,
            line,
        )
    }
}

impl<'a, T: Copy, F: Fn(&[T], usize) -> Result<Vec<T>, LocalError>, const N: usize, const M: usize> LocalStation<T, MixedError> for MixedRealStation<'a, F, N, M> {
    fn run_in_place(&self, data: &mut [T], line: &mut Vec<T>) -> (outcome: Result<
        (),
        MixedError,
    >) {
        mixed_real_prefix_in_place(&self.local, self.kernel, &self.pencil, self.axis, data, line)
    }
}

/// A complex stage of a mixed plan.
#[derive(Debug)]
pub struct MixedComplexStation<'a, F, const N: usize, const M: usize> {
    /// The kernel.
    pub kernel: &'a F,
    /// What the stage does.
    pub local: MixedComplexLocal,
    /// The layout whose lines it goes along.
    pub pencil: Pencil<N, M>,
    /// The axis that it goes along.
    pub axis: usize,
}

impl<'a, T: Copy, F: Fn(&[T], usize) -> Result<Vec<T>, LocalError>, const N: usize, const M: usize> Station<T, T, MixedError> for MixedComplexStation<'a, F, N, M> {
    open spec fn ready(&self) -> bool {
        &&& self.pencil.wf()
        &&& line_kernel::<T, T, LocalError, F>(*self.kernel)
    }

    open spec fn leaves(
        &self,
        source: Seq<T>,
        original: Seq<T>,
        result: Seq<T>,
        line: usize,
        outcome: Result<(), MixedError>,
    ) -> bool {
        mixed_complex_done::<T, F>(
            self.local,
            *self.kernel,
            self.pencil.stride_along(self.axis as int),
            source,
            original,
            result,
            line,
            outcome,
        )
    }

    fn run(&self, source: &[T], destination: &mut [T], line: &mut Vec<T>) -> (outcome:
        Result<(), MixedError>) {
        mixed_complex(
            &self.local,
            self.kernel,
            &self.pencil,
            self.axis,
            source,
            destination,
            line,
        )
    }
}

impl<'a, T: Copy, F: Fn(&[T], usize) -> Result<Vec<T>, LocalError>, const N: usize, const M: usize> LocalStation<T, MixedError> for MixedComplexStation<'a, F, N, M> {
    fn run_in_place(&self, data: &mut [T], line: &mut Vec<T>) -> (outcome: Result<
        (),
        MixedError,
    >) {
        mixed_complex_in_place(&self.local, self.kernel, &self.pencil, self.axis, data, line)
    }
}

} // verus!
