//! The real-to-complex handoff of a mixed plan, in one allocation.

use vstd::arithmetic::div_mod::lemma_small_mod;
use vstd::prelude::*;

use crate::array::capacity_of;
use crate::array::cut;
use crate::array::resize_filled;
use crate::array::resized;
use crate::array::ArrayParts;
use crate::array::ManyPencilArray;
use crate::convert::complex_installed;
use crate::convert::filled_up;
use crate::convert::first_layout;
use crate::convert::forward_handed;
use crate::convert::forward_left;
use crate::convert::forward_rejected;
use crate::convert::lemma_forward_landed;
use crate::convert::lemma_forward_rejected;
use crate::convert::lemma_reverse_landed;
use crate::convert::lemma_reverse_rejected;
use crate::convert::real_taken_on;
use crate::convert::recast_of;
use crate::convert::reverse_cause;
use crate::convert::reverse_handed;
use crate::convert::reverse_left;
use crate::convert::reverse_rejected;
use crate::convert::same_extra;
use crate::convert::same_lens;
use crate::convert::Detached;
use crate::error::ArrayError;
use crate::error::FftError;
use crate::error::MixedError;
use crate::handoff::convert_recast_forward;
use crate::handoff::convert_recast_reverse;
use crate::handoff::fails_before_recast;
use crate::handoff::lanes;
use crate::handoff::recast_forward_error;
use crate::handoff::recast_reverse_error;
use crate::handoff::Boundary;
use crate::handoff::HalfComplexStorage;
use crate::handoff::LineBuffers;
use crate::handoff::ReverseFailure;
use crate::handoff::SharedStorage;
use crate::layout::memory_stride;
use crate::layout::ExtraShape;
use crate::layout::Pencil;
use crate::lines::line_kernel;
use crate::lines::rejects;
use crate::recast::forward_converted;
use crate::recast::reverse_converted;
use crate::recast::some_line_fails;
use crate::registry::find_layout;
use crate::registry::has_layout;
use crate::scalar::flatten;
use crate::scalar::Complex;
use crate::scalar::FftReal;
use crate::shared::complex_side;
use crate::shared::real_side;
use crate::stages::LocalError;
use crate::storage::boundary_row_count;
use crate::storage::boundary_rows;
use crate::sweep::SweepError;

verus! {

/// Boundary lines of a mixed plan on this rank, counted on the real or on the complex side.
pub open spec fn mixed_rows<const N: usize, const M: usize>(
    boundary: Boundary<N, M>,
    complex: bool,
) -> Option<int> {
    if complex {
        boundary_rows(
            boundary.stage.output.local_len as int,
            boundary.plan.complex_len as int,
            boundary.extra as int,
        )
    } else {
        boundary_rows(
            boundary.stage.input.local_len as int,
            boundary.plan.real_len as int,
            boundary.extra as int,
        )
    }
}

/// Returns the boundary lines of a mixed plan, counted on the real or on the complex side.
pub fn mixed_boundary_rows<const N: usize, const M: usize>(
    boundary: &Boundary<N, M>,
    complex: bool,
) -> (result: Result<usize, MixedError>)
    requires
        boundary.plan.wf(),
    ensures
        match mixed_rows(*boundary, complex) {
            Some(rows) => result is Ok && result->Ok_0 == rows,
            None => result == Err::<usize, MixedError>(MixedError::Fft(FftError::PreparationFailed)),
        },
{
    let counted = if complex {
        boundary_row_count(
            boundary.stage.output.local_len,
            boundary.plan.complex_len,
            boundary.extra,
        )
    } else {
        boundary_row_count(
            boundary.stage.input.local_len,
            boundary.plan.real_len,
            boundary.extra,
        )
    };
    match counted {
        Ok(rows) => Ok(rows),
        Err(error) => Err(MixedError::Fft(error)),
    }
}

/// The allocation is owned and no side of it can be read.
pub open spec fn storage_poisoned<R, const N: usize, const M: usize>(
    after: SharedStorage<R, N, M>,
) -> bool {
    match after.storage {
        Some(HalfComplexStorage::PoisonedReal(_)) => true,
        Some(HalfComplexStorage::PoisonedComplex(_)) => true,
        _ => false,
    }
}

/// What keeps a handoff to the complex side from taking the allocation.
pub open spec fn mixed_forward_refused<R: FftReal, const N: usize, const M: usize>(
    boundary: Boundary<N, M>,
    shared: SharedStorage<R, N, M>,
) -> Option<FftError> {
    if boundary.real_stride() is None || mixed_rows(boundary, false) is None {
        Some(FftError::PreparationFailed)
    } else if shared.complex_pencils is None || !has_layout(
        shared.complex_pencils->0@,
        boundary.stage.output,
    ) {
        Some(FftError::StorageLayoutMismatch)
    } else {
        match shared.storage {
            Some(HalfComplexStorage::Real(source)) => if source.active is None {
                Some(FftError::Array(ArrayError::Poisoned))
            } else {
                None
            },
            _ => Some(FftError::StorageLayoutMismatch),
        }
    }
}

/// What keeps a handoff to the real side from taking the allocation.
pub open spec fn mixed_reverse_refused<R: FftReal, const N: usize, const M: usize>(
    boundary: Boundary<N, M>,
    shared: SharedStorage<R, N, M>,
) -> Option<FftError> {
    if boundary.complex_stride() is None || mixed_rows(boundary, true) is None {
        Some(FftError::PreparationFailed)
    } else if shared.real_pencils is None || !has_layout(
        shared.real_pencils->0@,
        boundary.stage.input,
    ) {
        Some(FftError::StorageLayoutMismatch)
    } else {
        match shared.storage {
            Some(HalfComplexStorage::Complex(source)) => if source.active is None {
                Some(FftError::Array(ArrayError::Poisoned))
            } else {
                None
            },
            _ => Some(FftError::StorageLayoutMismatch),
        }
    }
}

/// What is reported of a conversion that failed.
pub open spec fn mixed_fault_of(cause: SweepError<LocalError>) -> MixedError {
    match cause {
        SweepError::Fft(error) => MixedError::Fft(error),
        SweepError::Kernel(LocalError::C2c(rejected)) => MixedError::LocalC2c(rejected),
        SweepError::Kernel(LocalError::R2c(rejected)) => MixedError::LocalR2c(rejected),
        SweepError::Kernel(LocalError::R2r(rejected)) => MixedError::LocalR2r(rejected),
    }
}

fn mixed_fault(error: SweepError<LocalError>) -> (result: MixedError)
    ensures
        result == mixed_fault_of(error),
{
    match error {
        SweepError::Fft(fault) => MixedError::Fft(fault),
        SweepError::Kernel(LocalError::C2c(rejected)) => MixedError::LocalC2c(rejected),
        SweepError::Kernel(LocalError::R2c(rejected)) => MixedError::LocalR2c(rejected),
        SweepError::Kernel(LocalError::R2r(rejected)) => MixedError::LocalR2r(rejected),
    }
}

/// What the kernel reported behind an error of a mixed handoff, if it was the kernel.
pub open spec fn kernel_error(error: MixedError) -> Option<LocalError> {
    match error {
        MixedError::LocalC2c(rejected) => Some(LocalError::C2c(rejected)),
        MixedError::LocalR2c(rejected) => Some(LocalError::R2c(rejected)),
        MixedError::LocalR2r(rejected) => Some(LocalError::R2r(rejected)),
        _ => None,
    }
}

/// The layouts of both sides wait.
pub open spec fn both_wait<R, const N: usize, const M: usize>(
    reals: Vec<Pencil<N, M>>,
    complexes: Vec<Pencil<N, M>>,
    after: SharedStorage<R, N, M>,
) -> bool {
    after.real_pencils == Some(reals) && after.complex_pencils == Some(complexes)
}

/// Why the lines of a recast allocation could not be converted to the complex side.
pub open spec fn mixed_forward_cause<R: FftReal, F: Fn(&[R], usize) -> Result<Vec<Complex<R>>, LocalError>, const N: usize, const M: usize>(
    kernel: F,
    boundary: Boundary<N, M>,
    buffers: LineBuffers,
    real_count: int,
    lines: Seq<Complex<R>>,
    cause: SweepError<LocalError>,
) -> bool {
    let rows = mixed_rows(boundary, false)->0;
    let stride = boundary.real_stride()->0 as int;
    let refusal = recast_forward_error(
        rows,
        stride,
        boundary.plan,
        real_count,
        lines.len() as int,
        buffers,
        false,
    );
    match cause {
        SweepError::Fft(error) => refusal == Some(error),
        SweepError::Kernel(error) => {
            &&& refusal is None
            &&& rejects::<R, Complex<R>, LocalError, F>(kernel, error)
            &&& rows * boundary.plan.real_len <= real_count ==> some_line_fails::<
                R,
                Complex<R>,
                LocalError,
                F,
            >(
                kernel,
                flatten(lines),
                rows / lanes(stride),
                boundary.plan.real_len as nat,
                boundary.plan.complex_len as int,
                lanes(stride),
                error,
            )
        },
    }
}

/// What a handoff to the complex side comes to behind the recast of its allocation. Where the
/// recast or a line fails, the allocation is kept and counts as poisoned.
pub open spec fn mixed_forward_settled<R: FftReal, F: Fn(&[R], usize) -> Result<Vec<Complex<R>>, LocalError>, const N: usize, const M: usize>(
    kernel: F,
    boundary: Boundary<N, M>,
    buffers: LineBuffers,
    detached: Detached<N, M>,
    recast: Result<Vec<Complex<R>>, Vec<R>>,
    after: SharedStorage<R, N, M>,
    result: Result<(), MixedError>,
) -> bool {
    let rows = mixed_rows(boundary, false)->0;
    let step = lanes(boundary.real_stride()->0 as int);
    let real_count = after.real_storage_len as int;
    match recast {
        Err(same) => {
            &&& both_wait(detached.source, detached.destination, after)
            &&& after.storage == Some(HalfComplexStorage::<R, N, M>::PoisonedReal(same))
            &&& result == Err::<(), MixedError>(MixedError::Fft(FftError::StorageLayoutMismatch))
        },
        Ok(lines) => {
            ||| exists|cause: SweepError<LocalError>|
                {
                    &&& #[trigger] mixed_forward_cause::<R, F, N, M>(
                        kernel,
                        boundary,
                        buffers,
                        real_count,
                        lines@,
                        cause,
                    )
                    &&& both_wait(detached.source, detached.destination, after)
                    &&& after.storage matches Some(HalfComplexStorage::PoisonedComplex(left))
                        && left@.len() == lines@.len()
                    &&& result == Err::<(), MixedError>(mixed_fault_of(cause))
                }
            ||| exists|converted: Seq<Complex<R>>, installed: Option<ArrayError>|
                {
                    &&& converted.len() == lines@.len()
                    &&& #[trigger] complex_installed(
                        detached.destination,
                        detached.active,
                        detached.extra_shape,
                        converted,
                        after,
                        installed,
                    )
                    &&& after.real_pencils == Some(detached.source)
                    &&& after.complex_pencils is None
                    &&& recast_forward_error(
                        rows,
                        boundary.real_stride()->0 as int,
                        boundary.plan,
                        real_count,
                        lines@.len() as int,
                        buffers,
                        false,
                    ) is None
                    &&& rows * boundary.plan.real_len <= real_count ==> forward_converted::<
                        R,
                        LocalError,
                        F,
                    >(
                        kernel,
                        flatten(lines@),
                        converted,
                        rows / step,
                        boundary.plan.real_len as nat,
                        boundary.plan.complex_len as nat,
                        step,
                    )
                    &&& result == match installed {
                        None => Ok::<(), MixedError>(()),
                        Some(error) => Err(MixedError::Fft(FftError::Array(error))),
                    }
                }
        },
    }
}

/// Finishes a handoff to the complex side, given what the recast of its allocation came to.
pub fn mixed_settle_forward<R: FftReal, F: Fn(&[R], usize) -> Result<Vec<Complex<R>>, LocalError>, const N: usize, const M: usize>(
    kernel: &F,
    boundary: &Boundary<N, M>,
    buffers: &LineBuffers,
    detached: Detached<N, M>,
    recast: Result<Vec<Complex<R>>, Vec<R>>,
    shared: &mut SharedStorage<R, N, M>,
) -> (result: Result<(), MixedError>)
    requires
        boundary.wf(),
        boundary.real_stride() is Some,
        mixed_rows(*boundary, false) is Some,
        line_kernel::<R, Complex<R>, LocalError, F>(*kernel),
        old(shared).complex_pencils is None,
    ensures
        same_lens(*old(shared), *final(shared)),
        mixed_forward_settled::<R, F, N, M>(
            *kernel,
            *boundary,
            *buffers,
            detached,
            recast,
            *final(shared),
            result,
        ),
{
    let stride: usize = match memory_stride(&boundary.stage.input, boundary.stage.axis) {
        Ok(stride) => stride,
        Err(error) => {
            return Err(MixedError::Fft(error));
        },
    };
    let rows: usize = match mixed_boundary_rows(boundary, false) {
        Ok(rows) => rows,
        Err(error) => {
            return Err(error);
        },
    };
    let mut lines: Vec<Complex<R>> = match recast {
        Ok(lines) => lines,
        Err(same) => {
            shared.storage = Some(HalfComplexStorage::PoisonedReal(same));
            shared.real_pencils = Some(detached.source);
            shared.complex_pencils = Some(detached.destination);
            return Err(MixedError::Fft(FftError::StorageLayoutMismatch));
        },
    };
    let ghost given = lines@;
    proof {
        if stride > 1 && rows == 0 {
            lemma_small_mod(0, stride as nat);
        }
    }
    match convert_recast_forward(
        kernel,
        &mut lines,
        &boundary.plan,
        rows,
        stride,
        shared.real_storage_len,
        buffers,
        false,
    ) {
        Ok(_) => {},
        Err(error) => {
            assert(mixed_forward_cause::<R, F, N, M>(
                *kernel,
                *boundary,
                *buffers,
                shared.real_storage_len as int,
                given,
                error,
            ));
            shared.storage = Some(HalfComplexStorage::PoisonedComplex(lines));
            shared.real_pencils = Some(detached.source);
            shared.complex_pencils = Some(detached.destination);
            return Err(mixed_fault(error));
        },
    }
    let ghost converted = lines@;
    lines.truncate(shared.complex_storage_len);
    assert(lines@ =~= cut(converted, shared.complex_storage_len as nat));
    shared.real_pencils = Some(detached.source);
    match ManyPencilArray::from_vec_preserving(
        detached.destination,
        detached.active,
        detached.extra_shape,
        lines,
    ) {
        Ok(target) => {
            shared.storage = Some(HalfComplexStorage::Complex(target));
            assert(complex_installed(
                detached.destination,
                detached.active,
                detached.extra_shape,
                converted,
                *shared,
                None,
            ));
            Ok(())
        },
        Err((error, same)) => {
            shared.storage = Some(HalfComplexStorage::PoisonedComplex(same));
            assert(complex_installed(
                detached.destination,
                detached.active,
                detached.extra_shape,
                converted,
                *shared,
                Some(error),
            ));
            Err(MixedError::Fft(FftError::Array(error)))
        },
    }
}

/// The layouts that a handoff of `source` to the layouts `destination` is about.
pub open spec fn detaches<T, const N: usize, const M: usize>(
    detached: Detached<N, M>,
    source: ManyPencilArray<T, N, M>,
    destination: Vec<Pencil<N, M>>,
    arrival: Pencil<N, M>,
    extra_shape: ExtraShape,
) -> bool {
    &&& detached.source == source.pencils
    &&& detached.destination == destination
    &&& first_layout(destination@, arrival, detached.active as int)
    &&& same_extra(detached.extra_shape, extra_shape)
}

/// What a handoff to the complex side comes to if its allocation has the given capacity. One that
/// cannot be counted in bytes or in pairs is kept and counts as poisoned.
pub open spec fn mixed_forward_run<R: FftReal, F: Fn(&[R], usize) -> Result<Vec<Complex<R>>, LocalError>, const N: usize, const M: usize>(
    kernel: F,
    boundary: Boundary<N, M>,
    extra_shape: ExtraShape,
    buffers: LineBuffers,
    capacity: usize,
    before: SharedStorage<R, N, M>,
    after: SharedStorage<R, N, M>,
    result: Result<(), MixedError>,
) -> bool {
    let source = real_side(before);
    &&& source.storage@.len() <= capacity
    &&& if capacity * R::bytes() > usize::MAX || capacity % 2 != 0 {
        &&& both_wait(source.pencils, before.complex_pencils->0, after)
        &&& after.storage == Some(HalfComplexStorage::<R, N, M>::PoisonedReal(source.storage))
        &&& result == Err::<(), MixedError>(MixedError::Fft(FftError::StorageLayoutMismatch))
    } else {
        exists|detached: Detached<N, M>, recast: Result<Vec<Complex<R>>, Vec<R>>|
            {
                &&& detaches(
                    detached,
                    source,
                    before.complex_pencils->0,
                    boundary.stage.output,
                    extra_shape,
                )
                &&& recast_of(resized(source.storage@, capacity as nat, R::zero_bits()), recast)
                &&& #[trigger] mixed_forward_settled::<R, F, N, M>(
                    kernel,
                    boundary,
                    buffers,
                    detached,
                    recast,
                    after,
                    result,
                )
            }
    }
}

/// What turning the real side of a shared allocation into the complex side comes to.
pub open spec fn mixed_real_handed_over<R: FftReal, F: Fn(&[R], usize) -> Result<Vec<Complex<R>>, LocalError>, const N: usize, const M: usize>(
    kernel: F,
    boundary: Boundary<N, M>,
    extra_shape: ExtraShape,
    buffers: LineBuffers,
    before: SharedStorage<R, N, M>,
    after: SharedStorage<R, N, M>,
    result: Result<(), MixedError>,
) -> bool {
    &&& same_lens(before, after)
    &&& match mixed_forward_refused(boundary, before) {
        Some(error) => result == Err::<(), MixedError>(MixedError::Fft(error)) && forward_left(
            error == FftError::PreparationFailed || before.complex_pencils is None
                || !has_layout(before.complex_pencils->0@, boundary.stage.output),
            before,
            after,
        ),
        None => {
            &&& exists|capacity: usize| #[trigger]
                mixed_forward_run::<R, F, N, M>(
                    kernel,
                    boundary,
                    extra_shape,
                    buffers,
                    capacity,
                    before,
                    after,
                    result,
                )
            &&& result is Ok ==> forward_handed::<R, LocalError, F, N, M>(
                kernel,
                boundary.plan,
                mixed_rows(boundary, false)->0,
                boundary.real_stride()->0 as int,
                complex_side(after).active->0 as int,
                before,
                after,
            )
            &&& result matches Err(error) ==> {
                &&& storage_poisoned(after)
                &&& kernel_error(error) matches Some(rejected) ==> forward_rejected::<
                    R,
                    LocalError,
                    F,
                    N,
                    M,
                >(
                    kernel,
                    boundary.plan,
                    mixed_rows(boundary, false)->0,
                    boundary.real_stride()->0 as int,
                    before,
                    rejected,
                )
            }
        },
    }
}

/// Turns the real side of a shared allocation that has the given capacity into the complex side. The
/// whole capacity serves. A fault after the allocation was taken leaves it owned and unreadable.
pub fn mixed_convert_real_to_complex_in<R: FftReal, F: Fn(&[R], usize) -> Result<Vec<Complex<R>>, LocalError>, const N: usize, const M: usize>(
    kernel: &F,
    boundary: &Boundary<N, M>,
    extra_shape: &ExtraShape,
    shared: &mut SharedStorage<R, N, M>,
    buffers: &LineBuffers,
    capacity: usize,
) -> (result: Result<(), MixedError>)
    requires
        boundary.wf(),
        line_kernel::<R, Complex<R>, LocalError, F>(*kernel),
        old(shared).storage matches Some(HalfComplexStorage::Real(source)) ==> source.storage@.len()
            <= capacity,
    ensures
        mixed_real_handed_over::<R, F, N, M>(
            *kernel,
            *boundary,
            *extra_shape,
            *buffers,
            *old(shared),
            *final(shared),
            result,
        ),
        mixed_forward_refused(*boundary, *old(shared)) is None ==> mixed_forward_run::<R, F, N, M>(
            *kernel,
            *boundary,
            *extra_shape,
            *buffers,
            capacity,
            *old(shared),
            *final(shared),
            result,
        ),
{
    let stride: usize = match memory_stride(&boundary.stage.input, boundary.stage.axis) {
        Ok(stride) => stride,
        Err(error) => {
            return Err(MixedError::Fft(error));
        },
    };
    let rows: usize = match mixed_boundary_rows(boundary, false) {
        Ok(rows) => rows,
        Err(error) => {
            return Err(error);
        },
    };
    let destination: Vec<Pencil<N, M>> = match shared.complex_pencils.take() {
        Some(pencils) => pencils,
        None => {
            return Err(MixedError::Fft(FftError::StorageLayoutMismatch));
        },
    };
    let active: usize = match find_layout(&destination, &boundary.stage.output) {
        Some(active) => active,
        None => {
            shared.complex_pencils = Some(destination);
            return Err(MixedError::Fft(FftError::StorageLayoutMismatch));
        },
    };
    assert(has_layout(destination@, boundary.stage.output));
    let source: ManyPencilArray<R, N, M> = match shared.storage.take() {
        Some(HalfComplexStorage::Real(source)) => source,
        _ => {
            shared.complex_pencils = Some(destination);
            return Err(MixedError::Fft(FftError::StorageLayoutMismatch));
        },
    };
    let parts: ArrayParts<R, N, M> = match source.into_parts_preserving() {
        Ok(parts) => parts,
        Err((error, same)) => {
            shared.storage = Some(HalfComplexStorage::PoisonedReal(same.into_storage()));
            shared.complex_pencils = Some(destination);
            return Err(MixedError::Fft(FftError::Array(error)));
        },
    };
    let addressable: bool = capacity.checked_mul(R::scalar_bytes()).is_some();
    if !addressable || capacity % 2 != 0 {
        shared.storage = Some(HalfComplexStorage::PoisonedReal(parts.storage));
        shared.real_pencils = Some(parts.pencils);
        shared.complex_pencils = Some(destination);
        assert(mixed_forward_run::<R, F, N, M>(
            *kernel,
            *boundary,
            *extra_shape,
            *buffers,
            capacity,
            *old(shared),
            *shared,
            Err(MixedError::Fft(FftError::StorageLayoutMismatch)),
        ));
        return Err(MixedError::Fft(FftError::StorageLayoutMismatch));
    }
    let ghost packed = parts.storage@;
    let mut storage: Vec<R> = parts.storage;
    resize_filled(&mut storage, capacity, R::zero());
    let ghost filled = storage@;
    let recast: Result<Vec<Complex<R>>, Vec<R>> = R::recast_to_pairs(storage);
    let detached: Detached<N, M> = Detached {
        source: parts.pencils,
        destination,
        active,
        extra_shape: extra_shape.duplicate(),
    };
    let result = mixed_settle_forward(kernel, boundary, buffers, detached, recast, shared);
    proof {
        assert(recast_of(filled, recast));
        assert(detaches(
            detached,
            real_side(*old(shared)),
            old(shared).complex_pencils->0,
            boundary.stage.output,
            *extra_shape,
        ));
        assert(mixed_forward_run::<R, F, N, M>(
            *kernel,
            *boundary,
            *extra_shape,
            *buffers,
            capacity,
            *old(shared),
            *shared,
            result,
        ));
        if recast is Ok {
            let lines = recast->Ok_0@;
            let real_count = old(shared).real_storage_len as int;
            assert(flatten(lines).len() == 2 * lines.len());
            if stride > 1 && rows == 0 {
                lemma_small_mod(0, stride as nat);
            }
            if result is Ok {
                let (converted, installed) = choose|
                    converted: Seq<Complex<R>>,
                    installed: Option<ArrayError>,
                |
                    {
                        &&& converted.len() == lines.len()
                        &&& #[trigger] complex_installed(
                            detached.destination,
                            detached.active,
                            detached.extra_shape,
                            converted,
                            *shared,
                            installed,
                        )
                        &&& shared.real_pencils == Some(detached.source)
                        &&& shared.complex_pencils is None
                        &&& recast_forward_error(
                            rows as int,
                            stride as int,
                            boundary.plan,
                            real_count,
                            lines.len() as int,
                            *buffers,
                            false,
                        ) is None
                        &&& rows * boundary.plan.real_len <= real_count ==> forward_converted::<
                            R,
                            LocalError,
                            F,
                        >(
                            *kernel,
                            flatten(lines),
                            converted,
                            rows as int / lanes(stride as int),
                            boundary.plan.real_len as nat,
                            boundary.plan.complex_len as nat,
                            lanes(stride as int),
                        )
                        &&& result == match installed {
                            None => Ok::<(), MixedError>(()),
                            Some(error) => Err(MixedError::Fft(FftError::Array(error))),
                        }
                    };
                let target = shared.storage->0->Complex_0;
                if real_count == packed.len() && rows * boundary.plan.real_len <= packed.len()
                    && rows * boundary.plan.complex_len <= target.storage@.len() {
                    assert(target.storage@ =~= converted.take(target.storage@.len() as int));
                    lemma_forward_landed::<R, LocalError, F>(
                        *kernel,
                        packed,
                        filled,
                        converted,
                        target.storage@,
                        boundary.plan,
                        rows as int,
                        stride as int,
                    );
                }
            } else if kernel_error(result->Err_0) is Some {
                let rejected = kernel_error(result->Err_0)->0;
                assert(mixed_forward_cause::<R, F, N, M>(
                    *kernel,
                    *boundary,
                    *buffers,
                    real_count,
                    lines,
                    SweepError::Kernel(rejected),
                ));
                if real_count == packed.len() && rows * boundary.plan.real_len <= packed.len() {
                    lemma_forward_rejected::<R, LocalError, F>(
                        *kernel,
                        packed,
                        filled,
                        boundary.plan,
                        rows as int,
                        stride as int,
                        rejected,
                        real_count,
                    );
                }
            }
        }
    }
    result
}

/// Turns the real side of a shared allocation into the complex side. The capacity of the allocation
/// rests on the allocator; [`mixed_convert_real_to_complex_in`] says what follows for each one.
pub fn mixed_convert_real_to_complex<R: FftReal, F: Fn(&[R], usize) -> Result<Vec<Complex<R>>, LocalError>, const N: usize, const M: usize>(
    kernel: &F,
    boundary: &Boundary<N, M>,
    extra_shape: &ExtraShape,
    shared: &mut SharedStorage<R, N, M>,
    buffers: &LineBuffers,
) -> (result: Result<(), MixedError>)
    requires
        boundary.wf(),
        line_kernel::<R, Complex<R>, LocalError, F>(*kernel),
    ensures
        mixed_real_handed_over::<R, F, N, M>(
            *kernel,
            *boundary,
            *extra_shape,
            *buffers,
            *old(shared),
            *final(shared),
            result,
        ),
{
    let capacity: usize = match &shared.storage {
        Some(HalfComplexStorage::Real(source)) => capacity_of(&source.storage),
        _ => 0,
    };
    mixed_convert_real_to_complex_in(kernel, boundary, extra_shape, shared, buffers, capacity)
}

/// What a handoff to the real side comes to once its allocation is filled up. Where a line fails,
/// the allocation is kept and counts as poisoned.
pub open spec fn mixed_reverse_settled<R: FftReal, F: Fn(&[Complex<R>], usize) -> Result<Vec<R>, LocalError>, const N: usize, const M: usize>(
    kernel: F,
    boundary: Boundary<N, M>,
    buffers: LineBuffers,
    detached: Detached<N, M>,
    lines: Seq<Complex<R>>,
    after: SharedStorage<R, N, M>,
    result: Result<(), MixedError>,
) -> bool {
    let rows = mixed_rows(boundary, true)->0;
    let stride = boundary.complex_stride()->0 as int;
    let plan = boundary.plan;
    let refusal = recast_reverse_error(
        rows,
        stride,
        plan,
        after.real_storage_len as int,
        lines.len() as int,
        buffers,
        false,
        false,
    );
    ||| exists|converted: Seq<R>, installed: Option<ArrayError>|
        {
            &&& converted.len() == 2 * lines.len()
            &&& #[trigger] real_taken_on(detached, converted, after, installed)
            &&& refusal is None
            &&& (stride > 1 ==> rows * plan.real_len <= after.real_storage_len)
                ==> reverse_converted::<R, LocalError, F>(
                kernel,
                lines,
                converted,
                rows / lanes(stride),
                plan.complex_len as nat,
                plan.real_len as nat,
                lanes(stride),
            )
            &&& result == match installed {
                None => Ok::<(), MixedError>(()),
                Some(error) => Err(MixedError::Fft(FftError::Array(error))),
            }
        }
    ||| exists|cause: SweepError<LocalError>|
        {
            &&& #[trigger] reverse_cause::<R, LocalError, F>(
                kernel,
                rows,
                stride,
                plan,
                refusal,
                lines,
                cause,
            )
            &&& both_wait(detached.destination, detached.source, after)
            &&& if fails_before_recast(
                rows,
                stride,
                plan,
                lines.len() as int,
                buffers,
                false,
                cause,
            ) {
                after.storage matches Some(HalfComplexStorage::PoisonedComplex(left)) && left@.len()
                    == lines.len()
            } else {
                after.storage matches Some(HalfComplexStorage::PoisonedReal(left)) && left@.len()
                    == 2 * lines.len()
            }
            &&& result == Err::<(), MixedError>(mixed_fault_of(cause))
        }
}

/// Finishes a handoff to the real side, given its filled allocation.
pub fn mixed_settle_reverse<R: FftReal, F: Fn(&[Complex<R>], usize) -> Result<Vec<R>, LocalError>, const N: usize, const M: usize>(
    kernel: &F,
    boundary: &Boundary<N, M>,
    buffers: &LineBuffers,
    detached: Detached<N, M>,
    lines: Vec<Complex<R>>,
    shared: &mut SharedStorage<R, N, M>,
) -> (result: Result<(), MixedError>)
    requires
        boundary.wf(),
        boundary.complex_stride() is Some,
        mixed_rows(*boundary, true) is Some,
        line_kernel::<Complex<R>, R, LocalError, F>(*kernel),
        old(shared).real_pencils is None,
    ensures
        same_lens(*old(shared), *final(shared)),
        mixed_reverse_settled::<R, F, N, M>(
            *kernel,
            *boundary,
            *buffers,
            detached,
            lines@,
            *final(shared),
            result,
        ),
{
    let stride: usize = match memory_stride(&boundary.stage.output, boundary.stage.axis) {
        Ok(stride) => stride,
        Err(error) => {
            return Err(MixedError::Fft(error));
        },
    };
    let rows: usize = match mixed_boundary_rows(boundary, true) {
        Ok(rows) => rows,
        Err(error) => {
            return Err(error);
        },
    };
    proof {
        if stride > 1 && rows == 0 {
            lemma_small_mod(0, stride as nat);
        }
    }
    match convert_recast_reverse(
        kernel,
        lines,
        &boundary.plan,
        rows,
        stride,
        shared.real_storage_len,
        buffers,
        false,
        false,
    ) {
        Ok(reals) => {
            let ghost converted = reals@;
            let mut kept: Vec<R> = reals;
            kept.truncate(shared.real_storage_len);
            assert(kept@ =~= cut(converted, shared.real_storage_len as nat));
            shared.complex_pencils = Some(detached.source);
            match ManyPencilArray::from_vec_preserving(
                detached.destination,
                detached.active,
                detached.extra_shape,
                kept,
            ) {
                Ok(target) => {
                    shared.storage = Some(HalfComplexStorage::Real(target));
                    assert(real_taken_on(detached, converted, *shared, None));
                    Ok(())
                },
                Err((error, same)) => {
                    shared.storage = Some(HalfComplexStorage::PoisonedReal(same));
                    assert(real_taken_on(detached, converted, *shared, Some(error)));
                    Err(MixedError::Fft(FftError::Array(error)))
                },
            }
        },
        Err(failure) => {
            shared.real_pencils = Some(detached.destination);
            shared.complex_pencils = Some(detached.source);
            assert(reverse_cause::<R, LocalError, F>(
                *kernel,
                rows as int,
                stride as int,
                boundary.plan,
                recast_reverse_error(
                    rows as int,
                    stride as int,
                    boundary.plan,
                    shared.real_storage_len as int,
                    lines@.len() as int,
                    *buffers,
                    false,
                    false,
                ),
                lines@,
                failure.error(),
            ));
            match failure {
                ReverseFailure::Complex(same, error) => {
                    shared.storage = Some(HalfComplexStorage::PoisonedComplex(same));
                    Err(mixed_fault(error))
                },
                ReverseFailure::Real(same, error) => {
                    shared.storage = Some(HalfComplexStorage::PoisonedReal(same));
                    Err(mixed_fault(error))
                },
            }
        },
    }
}

/// What a handoff to the real side comes to if its allocation has the given capacity. One that
/// cannot hold the complex side is kept and counts as poisoned.
pub open spec fn mixed_reverse_run<R: FftReal, F: Fn(&[Complex<R>], usize) -> Result<Vec<R>, LocalError>, const N: usize, const M: usize>(
    kernel: F,
    boundary: Boundary<N, M>,
    extra_shape: ExtraShape,
    buffers: LineBuffers,
    capacity: usize,
    before: SharedStorage<R, N, M>,
    after: SharedStorage<R, N, M>,
    result: Result<(), MixedError>,
) -> bool {
    let source = complex_side(before);
    &&& source.storage@.len() <= capacity
    &&& if capacity < before.complex_storage_len {
        &&& both_wait(before.real_pencils->0, source.pencils, after)
        &&& after.storage == Some(HalfComplexStorage::<R, N, M>::PoisonedComplex(source.storage))
        &&& result == Err::<(), MixedError>(MixedError::Fft(FftError::StorageLayoutMismatch))
    } else {
        exists|detached: Detached<N, M>|
            {
                &&& detaches(
                    detached,
                    source,
                    before.real_pencils->0,
                    boundary.stage.input,
                    extra_shape,
                )
                &&& #[trigger] mixed_reverse_settled::<R, F, N, M>(
                    kernel,
                    boundary,
                    buffers,
                    detached,
                    filled_up(source.storage@, capacity as nat),
                    after,
                    result,
                )
            }
    }
}

/// What turning the complex side of a shared allocation into the real side comes to.
pub open spec fn mixed_complex_handed_over<R: FftReal, F: Fn(&[Complex<R>], usize) -> Result<Vec<R>, LocalError>, const N: usize, const M: usize>(
    kernel: F,
    boundary: Boundary<N, M>,
    extra_shape: ExtraShape,
    buffers: LineBuffers,
    before: SharedStorage<R, N, M>,
    after: SharedStorage<R, N, M>,
    result: Result<(), MixedError>,
) -> bool {
    &&& same_lens(before, after)
    &&& match mixed_reverse_refused(boundary, before) {
        Some(error) => result == Err::<(), MixedError>(MixedError::Fft(error)) && reverse_left(
            error == FftError::PreparationFailed || before.real_pencils is None
                || !has_layout(before.real_pencils->0@, boundary.stage.input),
            before,
            after,
        ),
        None => {
            &&& exists|capacity: usize| #[trigger]
                mixed_reverse_run::<R, F, N, M>(
                    kernel,
                    boundary,
                    extra_shape,
                    buffers,
                    capacity,
                    before,
                    after,
                    result,
                )
            &&& result is Ok ==> reverse_handed::<R, LocalError, F, N, M>(
                kernel,
                boundary.plan,
                mixed_rows(boundary, true)->0,
                boundary.complex_stride()->0 as int,
                real_side(after).active->0 as int,
                before,
                after,
            )
            &&& result matches Err(error) ==> {
                &&& storage_poisoned(after)
                &&& kernel_error(error) matches Some(rejected) ==> reverse_rejected::<
                    R,
                    LocalError,
                    F,
                    N,
                    M,
                >(
                    kernel,
                    boundary.plan,
                    mixed_rows(boundary, true)->0,
                    boundary.complex_stride()->0 as int,
                    before,
                    rejected,
                )
            }
        },
    }
}

/// Turns the complex side of a shared allocation that has the given capacity into the real side. The
/// whole capacity serves. A fault after the allocation was taken leaves it owned and unreadable.
pub fn mixed_convert_complex_to_real_in<R: FftReal, F: Fn(&[Complex<R>], usize) -> Result<Vec<R>, LocalError>, const N: usize, const M: usize>(
    kernel: &F,
    boundary: &Boundary<N, M>,
    extra_shape: &ExtraShape,
    shared: &mut SharedStorage<R, N, M>,
    buffers: &LineBuffers,
    capacity: usize,
) -> (result: Result<(), MixedError>)
    requires
        boundary.wf(),
        line_kernel::<Complex<R>, R, LocalError, F>(*kernel),
        old(shared).storage matches Some(HalfComplexStorage::Complex(source)) ==> source.storage@.len()
            <= capacity,
    ensures
        mixed_complex_handed_over::<R, F, N, M>(
            *kernel,
            *boundary,
            *extra_shape,
            *buffers,
            *old(shared),
            *final(shared),
            result,
        ),
        mixed_reverse_refused(*boundary, *old(shared)) is None ==> mixed_reverse_run::<R, F, N, M>(
            *kernel,
            *boundary,
            *extra_shape,
            *buffers,
            capacity,
            *old(shared),
            *final(shared),
            result,
        ),
{
    let stride: usize = match memory_stride(&boundary.stage.output, boundary.stage.axis) {
        Ok(stride) => stride,
        Err(error) => {
            return Err(MixedError::Fft(error));
        },
    };
    let rows: usize = match mixed_boundary_rows(boundary, true) {
        Ok(rows) => rows,
        Err(error) => {
            return Err(error);
        },
    };
    let destination: Vec<Pencil<N, M>> = match shared.real_pencils.take() {
        Some(pencils) => pencils,
        None => {
            return Err(MixedError::Fft(FftError::StorageLayoutMismatch));
        },
    };
    let active: usize = match find_layout(&destination, &boundary.stage.input) {
        Some(active) => active,
        None => {
            shared.real_pencils = Some(destination);
            return Err(MixedError::Fft(FftError::StorageLayoutMismatch));
        },
    };
    assert(has_layout(destination@, boundary.stage.input));
    let source: ManyPencilArray<Complex<R>, N, M> = match shared.storage.take() {
        Some(HalfComplexStorage::Complex(source)) => source,
        _ => {
            shared.real_pencils = Some(destination);
            return Err(MixedError::Fft(FftError::StorageLayoutMismatch));
        },
    };
    let parts: ArrayParts<Complex<R>, N, M> = match source.into_parts_preserving() {
        Ok(parts) => parts,
        Err((error, same)) => {
            shared.storage = Some(HalfComplexStorage::PoisonedComplex(same.into_storage()));
            shared.real_pencils = Some(destination);
            return Err(MixedError::Fft(FftError::Array(error)));
        },
    };
    if capacity < shared.complex_storage_len {
        shared.storage = Some(HalfComplexStorage::PoisonedComplex(parts.storage));
        shared.real_pencils = Some(destination);
        shared.complex_pencils = Some(parts.pencils);
        assert(mixed_reverse_run::<R, F, N, M>(
            *kernel,
            *boundary,
            *extra_shape,
            *buffers,
            capacity,
            *old(shared),
            *shared,
            Err(MixedError::Fft(FftError::StorageLayoutMismatch)),
        ));
        return Err(MixedError::Fft(FftError::StorageLayoutMismatch));
    }
    let ghost packed = parts.storage@;
    let mut storage: Vec<Complex<R>> = parts.storage;
    let zero: R = R::zero();
    resize_filled(&mut storage, capacity, [zero, zero]);
    let ghost filled = storage@;
    let detached: Detached<N, M> = Detached {
        source: parts.pencils,
        destination,
        active,
        extra_shape: extra_shape.duplicate(),
    };
    let result = mixed_settle_reverse(kernel, boundary, buffers, detached, storage, shared);
    proof {
        assert(filled == filled_up(complex_side(*old(shared)).storage@, capacity as nat));
        assert(detaches(
            detached,
            complex_side(*old(shared)),
            old(shared).real_pencils->0,
            boundary.stage.input,
            *extra_shape,
        ));
        assert(mixed_reverse_run::<R, F, N, M>(
            *kernel,
            *boundary,
            *extra_shape,
            *buffers,
            capacity,
            *old(shared),
            *shared,
            result,
        ));
        if stride > 1 && rows == 0 {
            lemma_small_mod(0, stride as nat);
        }
        let refusal = recast_reverse_error(
            rows as int,
            stride as int,
            boundary.plan,
            shared.real_storage_len as int,
            filled.len() as int,
            *buffers,
            false,
            false,
        );
        if result is Ok {
            let (converted, installed) = choose|converted: Seq<R>, installed: Option<ArrayError>|
                {
                    &&& converted.len() == 2 * filled.len()
                    &&& #[trigger] real_taken_on(detached, converted, *shared, installed)
                    &&& refusal is None
                    &&& (stride > 1 ==> rows * boundary.plan.real_len <= shared.real_storage_len)
                        ==> reverse_converted::<R, LocalError, F>(
                        *kernel,
                        filled,
                        converted,
                        rows as int / lanes(stride as int),
                        boundary.plan.complex_len as nat,
                        boundary.plan.real_len as nat,
                        lanes(stride as int),
                    )
                    &&& result == match installed {
                        None => Ok::<(), MixedError>(()),
                        Some(error) => Err(MixedError::Fft(FftError::Array(error))),
                    }
                };
            let target = shared.storage->0->Real_0;
            if old(shared).complex_storage_len == packed.len() && rows * boundary.plan.complex_len
                <= packed.len() && rows * boundary.plan.real_len <= target.storage@.len() {
                assert(target.storage@ =~= converted.take(target.storage@.len() as int));
                lemma_reverse_landed::<R, LocalError, F>(
                    *kernel,
                    packed,
                    filled,
                    converted,
                    target.storage@,
                    boundary.plan,
                    rows as int,
                    stride as int,
                );
            }
        } else if kernel_error(result->Err_0) is Some {
            let rejected = kernel_error(result->Err_0)->0;
            assert(reverse_cause::<R, LocalError, F>(
                *kernel,
                rows as int,
                stride as int,
                boundary.plan,
                refusal,
                filled,
                SweepError::Kernel(rejected),
            ));
            lemma_reverse_rejected::<R, LocalError, F>(
                *kernel,
                packed,
                filled,
                boundary.plan,
                rows as int,
                stride as int,
                rejected,
                old(shared).complex_storage_len as int,
            );
        }
    }
    result
}

/// Turns the complex side of a shared allocation into the real side. The capacity of the allocation
/// rests on the allocator; [`mixed_convert_complex_to_real_in`] says what follows for each one.
pub fn mixed_convert_complex_to_real<R: FftReal, F: Fn(&[Complex<R>], usize) -> Result<Vec<R>, LocalError>, const N: usize, const M: usize>(
    kernel: &F,
    boundary: &Boundary<N, M>,
    extra_shape: &ExtraShape,
    shared: &mut SharedStorage<R, N, M>,
    buffers: &LineBuffers,
) -> (result: Result<(), MixedError>)
    requires
        boundary.wf(),
        line_kernel::<Complex<R>, R, LocalError, F>(*kernel),
    ensures
        mixed_complex_handed_over::<R, F, N, M>(
            *kernel,
            *boundary,
            *extra_shape,
            *buffers,
            *old(shared),
            *final(shared),
            result,
        ),
{
    let capacity: usize = match &shared.storage {
        Some(HalfComplexStorage::Complex(source)) => capacity_of(&source.storage),
        _ => 0,
    };
    mixed_convert_complex_to_real_in(kernel, boundary, extra_shape, shared, buffers, capacity)
}

} // verus!
