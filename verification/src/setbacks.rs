//! What keeps values from being handed over in place, and what becomes of them.

use vstd::prelude::*;

use crate::convert::forward_settled;
use crate::convert::Detached;
use crate::error::FftError;
use crate::error::LocalR2cError;
use crate::error::R2cError;
use crate::handoff::recast_forward_error;
use crate::handoff::recast_reverse_error;
use crate::handoff::strided_forward_error;
use crate::handoff::strided_reverse_error;
use crate::handoff::Boundary;
use crate::handoff::HalfComplexStorage;
use crate::handoff::LineBuffers;
use crate::handoff::SharedStorage;
use crate::local::LocalR2cPlan;
use crate::scalar::Complex;
use crate::scalar::FftReal;

verus! {

/// Strided lines are handed over in place exactly where they come in whole blocks that the storage
/// holds before and behind, and each line buffer holds a line. Short buffers are told by the longer
/// line and by the shortest buffer.
pub proof fn law_strided_handoff(
    rows: int,
    stride: int,
    real_len: usize,
    complex_len: usize,
    storage_len: int,
    buffers: LineBuffers,
)
    requires
        rows >= 0,
        stride > 1,
        storage_len <= usize::MAX,
    ensures
        strided_forward_error(rows, stride, real_len, complex_len, storage_len, buffers) is None <==> {
            &&& rows % stride == 0
            &&& rows * real_len <= storage_len
            &&& rows * complex_len <= storage_len
            &&& buffers.real_source_line matches Some(len) && len >= real_len
            &&& buffers.real_line >= real_len
            &&& buffers.complex_line >= complex_len
        },
        strided_reverse_error(rows, stride, real_len, complex_len, storage_len, buffers) is None <==> {
            &&& rows % stride == 0
            &&& rows * real_len <= storage_len
            &&& rows * complex_len <= storage_len
            &&& buffers.complex_source_line >= complex_len
            &&& buffers.complex_line >= complex_len
            &&& buffers.real_line >= real_len
        },
        rows % stride != 0 ==> strided_forward_error(
            rows,
            stride,
            real_len,
            complex_len,
            storage_len,
            buffers,
        ) == Some(FftError::PreparationFailed) && strided_reverse_error(
            rows,
            stride,
            real_len,
            complex_len,
            storage_len,
            buffers,
        ) == Some(FftError::PreparationFailed),
        strided_forward_error(rows, stride, real_len, complex_len, storage_len, buffers) matches Some(
            FftError::WorkspaceTooSmall { kind, required, actual },
        ) ==> {
            &&& kind == "real/complex line"
            &&& required >= real_len && required >= complex_len
            &&& required == real_len || required == complex_len
            &&& actual <= buffers.real_source_line->0
            &&& actual <= buffers.real_line
            &&& actual <= buffers.complex_line
            &&& actual == buffers.real_source_line->0 || actual == buffers.real_line || actual
                == buffers.complex_line
        },
        strided_reverse_error(rows, stride, real_len, complex_len, storage_len, buffers) matches Some(
            FftError::WorkspaceTooSmall { kind, required, actual },
        ) ==> {
            &&& kind == "complex/real line"
            &&& required >= real_len && required >= complex_len
            &&& required == real_len || required == complex_len
            &&& actual <= buffers.complex_source_line
            &&& actual <= buffers.real_line
            &&& actual <= buffers.complex_line
            &&& actual == buffers.complex_source_line || actual == buffers.real_line || actual
                == buffers.complex_line
        },
{
    let groups = rows / stride;
    vstd::arithmetic::div_mod::lemma_fundamental_div_mod(rows, stride);
    if rows % stride == 0 {
        assert(groups * real_len * stride == rows * real_len) by (nonlinear_arith)
            requires
                rows == stride * groups,
        ;
        assert(groups * complex_len * stride == rows * complex_len) by (nonlinear_arith)
            requires
                rows == stride * groups,
        ;
    }
}

/// Reals whose allocation was recast are converted where it holds them: contiguous lines where
/// their spectra fit, strided ones where the reals fit too and the lines can be handed over.
/// Without lines there is nothing to hand over.
pub proof fn law_recast_forward(
    rows: int,
    stride: int,
    plan: LocalR2cPlan,
    real_count: int,
    storage_len: int,
    buffers: LineBuffers,
)
    ensures
        stride <= 1 ==> {
            &&& recast_forward_error(rows, stride, plan, real_count, storage_len, buffers, true) is None <==> rows
                * plan.complex_len <= storage_len
            &&& rows * plan.complex_len > storage_len ==> recast_forward_error(
                rows,
                stride,
                plan,
                real_count,
                storage_len,
                buffers,
                true,
            ) == Some(FftError::PreparationFailed)
        },
        stride > 1 ==> {
            &&& real_count > storage_len ==> recast_forward_error(
                rows,
                stride,
                plan,
                real_count,
                storage_len,
                buffers,
                true,
            ) == Some(FftError::StorageLayoutMismatch)
            &&& recast_forward_error(rows, stride, plan, real_count, storage_len, buffers, true) is None <==> {
                &&& real_count <= storage_len
                &&& rows == 0 || strided_forward_error(
                    rows,
                    stride,
                    plan.real_len,
                    plan.complex_len,
                    storage_len,
                    buffers,
                ) is None
            }
        },
{
}

/// Complex values are converted and their allocation recast where it holds what comes out:
/// contiguous lines where the reals fit the recast allocation and the spectra lie in it,
/// strided ones where the lines can be handed over and the reals fit the allocation itself.
pub proof fn law_recast_reverse(
    rows: int,
    stride: int,
    plan: LocalR2cPlan,
    real_count: int,
    storage_len: int,
    buffers: LineBuffers,
)
    requires
        storage_len >= 0,
    ensures
        stride <= 1 ==> {
            &&& recast_reverse_error(rows, stride, plan, real_count, storage_len, buffers, true, true) is None <==> {
                &&& real_count <= 2 * storage_len
                &&& rows * plan.complex_len <= storage_len
            }
            &&& real_count > 2 * storage_len ==> recast_reverse_error(
                rows,
                stride,
                plan,
                real_count,
                storage_len,
                buffers,
                true,
                true,
            ) == Some(FftError::StorageLayoutMismatch)
        },
        stride > 1 ==> (recast_reverse_error(
            rows,
            stride,
            plan,
            real_count,
            storage_len,
            buffers,
            true,
            true,
        ) is None <==> {
            &&& real_count <= storage_len
            &&& rows == 0 || strided_reverse_error(
                rows,
                stride,
                plan.real_len,
                plan.complex_len,
                storage_len,
                buffers,
            ) is None
        }),
{
}

/// Reals whose allocation could not be recast are given up, and every layout waits. Where it
/// was recast the reals' layouts wait, and the array holds as many complex values as its side
/// is long; they count only where they could be registered, under the layouts that waited.
pub proof fn law_recast_settled<R: FftReal, F: Fn(&[R], usize) -> Result<Vec<Complex<R>>, LocalR2cError>, const N: usize, const M: usize>(
    kernel: F,
    boundary: Boundary<N, M>,
    buffers: LineBuffers,
    detached: Detached<N, M>,
    recast: Result<Vec<Complex<R>>, Vec<R>>,
    after: SharedStorage<R, N, M>,
    result: Result<(), R2cError>,
)
    requires
        forward_settled(kernel, boundary, buffers, detached, recast, after, result),
    ensures
        after.real_pencils == Some(detached.source),
        recast matches Err(values) ==> {
            &&& after.storage == Some(HalfComplexStorage::<R, N, M>::PoisonedReal(values))
            &&& after.complex_pencils == Some(detached.destination)
            &&& result == Err::<(), R2cError>(R2cError::Fft(FftError::StorageLayoutMismatch))
        },
        recast matches Ok(lines) ==> {
            &&& after.complex_pencils is None
            &&& after.storage matches Some(HalfComplexStorage::Complex(values)) ==> {
                &&& values.pencils == detached.destination
                &&& values.active == Some(detached.active)
                &&& values.storage@.len() <= lines@.len()
                &&& values.storage@.len() <= after.complex_storage_len
            }
            &&& after.storage matches Some(HalfComplexStorage::PoisonedComplex(values)) ==> {
                &&& result matches Err(R2cError::Fft(FftError::Array(_)))
                &&& values@.len() <= lines@.len()
            }
            &&& after.storage is Some
            &&& !(after.storage->0 is Real) && !(after.storage->0 is PoisonedReal)
        },
{
}

} // verus!
