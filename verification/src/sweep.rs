//! One local stage: a kernel swept along an axis of a pencil.

use vstd::prelude::*;

use crate::error::FftError;
use crate::layout::memory_stride;
use crate::layout::strided_line_count;
use crate::layout::Pencil;
use crate::lines::copy_all;
use crate::lines::line_at;
use crate::lines::line_fails;
use crate::lines::line_kernel;
use crate::lines::line_maps;
use crate::lines::lines_done;
use crate::lines::transform_lines;
use crate::lines::transform_lines_in_place;

verus! {

/// Why a sweep along an axis ended early.
#[derive(Clone, Copy, Debug, PartialEq, Eq)]
pub enum SweepError<E> {
    /// The lengths do not fit.
    Fft(FftError),
    /// The kernel rejected a line.
    Kernel(E),
}

/// The larger of two lengths.
pub open spec fn larger(left: usize, right: usize) -> usize {
    if left < right {
        right
    } else {
        left
    }
}

/// The smaller of two lengths.
pub open spec fn smaller(left: usize, right: usize) -> usize {
    if left < right {
        left
    } else {
        right
    }
}

/// Returns the larger of two lengths.
pub fn max_len(left: usize, right: usize) -> (len: usize)
    ensures
        len == larger(left, right),
{
    if left < right {
        right
    } else {
        left
    }
}

/// Returns the smaller of two lengths.
pub fn min_len(left: usize, right: usize) -> (len: usize)
    ensures
        len == smaller(left, right),
{
    if left < right {
        left
    } else {
        right
    }
}

/// The lengths of a sweep: of a source and a result line, of the buffers that hold one of each,
/// and the name under which a short buffer is reported.
#[derive(Clone, Copy, Debug)]
pub struct SweepLens {
    /// Elements of a source line.
    pub source_len: usize,
    /// Elements of a result line.
    pub result_len: usize,
    /// Elements of the buffer for a result line.
    pub result_line: usize,
    /// Name of the buffers.
    pub kind: &'static str,
    /// Whether the kernel is called once on an empty array.
    pub call_when_empty: bool,
}

/// The kernel sees the whole array at once instead of one line after the other.
pub open spec fn sweeps_whole(stride: usize, source: int, lens: SweepLens) -> bool {
    stride <= 1 || (lens.call_when_empty && source == 0)
}

/// What keeps a sweep from starting: nothing, or the first of its checks that fails.
pub open spec fn sweep_error(
    stride: Option<usize>,
    source: int,
    destination: int,
    source_line: usize,
    lens: SweepLens,
) -> Option<FftError> {
    match stride {
        None => Some(FftError::PreparationFailed),
        Some(step) => if step <= 1 {
            None
        } else if source_line < lens.source_len || lens.result_line < lens.result_len {
            Some(
                FftError::WorkspaceTooSmall {
                    kind: lens.kind,
                    required: larger(lens.source_len, lens.result_len),
                    actual: smaller(source_line, lens.result_line),
                },
            )
        } else if lens.source_len * step == 0 || lens.source_len * step > usize::MAX || source % (
        lens.source_len * step) != 0 {
            Some(FftError::PreparationFailed)
        } else if destination != (source / (lens.source_len * step)) * lens.result_len * step {
            Some(FftError::PreparationFailed)
        } else {
            None
        },
    }
}

/// What a sweep that could start leaves behind.
pub open spec fn sweep_leaves<A, B, E, F: Fn(&[A], usize) -> Result<Vec<B>, E>>(
    kernel: F,
    stride: usize,
    source: Seq<A>,
    original: Seq<B>,
    result: Seq<B>,
    lens: SweepLens,
    outcome: Result<(), E>,
) -> bool {
    if sweeps_whole(stride, source.len() as int, lens) {
        match outcome {
            Ok(_) => line_maps::<A, B, E, F>(kernel, source, result) && result.len()
                == original.len(),
            Err(error) => line_fails::<A, B, E, F>(kernel, source, original.len() as int, error)
                && result == original,
        }
    } else {
        let count = source.len() as int / (lens.source_len * stride);
        match outcome {
            Ok(_) => lines_done::<A, B, E, F>(
                kernel,
                source,
                original,
                result,
                lens.source_len as nat,
                lens.result_len as nat,
                stride as int,
                count,
                count,
                0,
            ),
            Err(error) => exists|block: int, lane: int|
                0 <= block < count && 0 <= lane < stride && #[trigger] lines_done::<A, B, E, F>(
                    kernel,
                    source,
                    original,
                    result,
                    lens.source_len as nat,
                    lens.result_len as nat,
                    stride as int,
                    count,
                    block,
                    lane,
                ) && line_fails::<A, B, E, F>(
                    kernel,
                    line_at(source, block, lane, lens.source_len as nat, stride as int),
                    lens.result_len as int,
                    error,
                ),
        }
    }
}

/// The outcome of a sweep and what it leaves behind.
pub open spec fn swept<A, B, E, F: Fn(&[A], usize) -> Result<Vec<B>, E>>(
    kernel: F,
    stride: Option<usize>,
    source: Seq<A>,
    original: Seq<B>,
    result: Seq<B>,
    source_line: usize,
    lens: SweepLens,
    outcome: Result<(), SweepError<E>>,
) -> bool {
    match sweep_error(stride, source.len() as int, original.len() as int, source_line, lens) {
        Some(error) => outcome == Err::<(), SweepError<E>>(SweepError::Fft(error)) && result
            == original,
        None => match outcome {
            Ok(_) => sweep_leaves::<A, B, E, F>(
                kernel,
                stride->0,
                source,
                original,
                result,
                lens,
                Ok(()),
            ),
            Err(SweepError::Kernel(error)) => sweep_leaves::<A, B, E, F>(
                kernel,
                stride->0,
                source,
                original,
                result,
                lens,
                Err(error),
            ),
            Err(SweepError::Fft(_)) => false,
        },
    }
}

/// Sweeps `kernel` along `axis` of `pencil`, from `source` into `destination`.
pub fn sweep<A: Copy, B: Copy, E, F: Fn(&[A], usize) -> Result<Vec<B>, E>, const N: usize, const M: usize>(
    kernel: &F,
    pencil: &Pencil<N, M>,
    axis: usize,
    source: &[A],
    destination: &mut [B],
    source_line: &mut Vec<A>,
    lens: SweepLens,
) -> (outcome: Result<(), SweepError<E>>)
    requires
        pencil.wf(),
        line_kernel::<A, B, E, F>(*kernel),
    ensures
        final(source_line)@.len() == old(source_line)@.len(),
        swept::<A, B, E, F>(
            *kernel,
            pencil.stride_along(axis as int),
            source@,
            old(destination)@,
            final(destination)@,
            old(source_line)@.len() as usize,
            lens,
            outcome,
        ),
{
    let stride: usize = match memory_stride(pencil, axis) {
        Ok(stride) => stride,
        Err(error) => {
            return Err(SweepError::Fft(error));
        },
    };
    if stride <= 1 {
        return sweep_whole(kernel, source, destination);
    }
    if source_line.len() < lens.source_len || lens.result_line < lens.result_len {
        return Err(
            SweepError::Fft(
                FftError::WorkspaceTooSmall {
                    kind: lens.kind,
                    required: max_len(lens.source_len, lens.result_len),
                    actual: min_len(source_line.len(), lens.result_line),
                },
            ),
        );
    }
    let count: usize = match strided_line_count(source.len(), lens.source_len, stride) {
        Ok(count) => count,
        Err(error) => {
            return Err(SweepError::Fft(error));
        },
    };
    if !has_lines(destination.len(), count, lens.result_len, stride) {
        return Err(SweepError::Fft(FftError::PreparationFailed));
    }
    if lens.call_when_empty && source.len() == 0 {
        return sweep_whole(kernel, source, destination);
    }
    match transform_lines(
        kernel,
        source,
        destination,
        source_line,
        lens.source_len,
        lens.result_len,
        stride,
        count,
    ) {
        Ok(_) => Ok(()),
        Err(error) => Err(SweepError::Kernel(error)),
    }
}

/// Sweeps `kernel` along `axis` of `pencil`, in place.
pub fn sweep_in_place<T: Copy, E, F: Fn(&[T], usize) -> Result<Vec<T>, E>, const N: usize, const M: usize>(
    kernel: &F,
    pencil: &Pencil<N, M>,
    axis: usize,
    data: &mut [T],
    line: &mut Vec<T>,
    lens: SweepLens,
) -> (outcome: Result<(), SweepError<E>>)
    requires
        pencil.wf(),
        line_kernel::<T, T, E, F>(*kernel),
        lens.source_len == lens.result_len,
    ensures
        final(line)@.len() == old(line)@.len(),
        swept::<T, T, E, F>(
            *kernel,
            pencil.stride_along(axis as int),
            old(data)@,
            old(data)@,
            final(data)@,
            old(line)@.len() as usize,
            lens,
            outcome,
        ),
{
    let stride: usize = match memory_stride(pencil, axis) {
        Ok(stride) => stride,
        Err(error) => {
            return Err(SweepError::Fft(error));
        },
    };
    if stride <= 1 {
        return sweep_whole_in_place(kernel, data);
    }
    if line.len() < lens.source_len || lens.result_line < lens.result_len {
        return Err(
            SweepError::Fft(
                FftError::WorkspaceTooSmall {
                    kind: lens.kind,
                    required: max_len(lens.source_len, lens.result_len),
                    actual: min_len(line.len(), lens.result_line),
                },
            ),
        );
    }
    let count: usize = match strided_line_count(data.len(), lens.source_len, stride) {
        Ok(count) => count,
        Err(error) => {
            return Err(SweepError::Fft(error));
        },
    };
    if lens.call_when_empty && data.len() == 0 {
        return sweep_whole_in_place(kernel, data);
    }
    match transform_lines_in_place(kernel, data, line, lens.source_len, stride, count) {
        Ok(_) => Ok(()),
        Err(error) => Err(SweepError::Kernel(error)),
    }
}

/// Whether an array of `len` elements holds exactly `count` blocks of `stride` lines.
fn has_lines(len: usize, count: usize, line_len: usize, stride: usize) -> (fits: bool)
    ensures
        fits == (len == count * line_len * stride),
{
    match count.checked_mul(line_len) {
        Some(rows) => match rows.checked_mul(stride) {
            Some(total) => len == total,
            None => false,
        },
        None => {
            assert(stride >= 1 ==> count * line_len * stride >= count * line_len) by (nonlinear_arith);
            if stride == 0 {
                assert(count * line_len * stride == 0) by (nonlinear_arith)
                    requires
                        stride == 0,
                ;
                len == 0
            } else {
                false
            }
        },
    }
}

fn sweep_whole<A: Copy, B: Copy, E, F: Fn(&[A], usize) -> Result<Vec<B>, E>>(
    kernel: &F,
    source: &[A],
    destination: &mut [B],
) -> (outcome: Result<(), SweepError<E>>)
    requires
        line_kernel::<A, B, E, F>(*kernel),
    ensures
        match outcome {
            Ok(_) => line_maps::<A, B, E, F>(*kernel, source@, final(destination)@) && final(destination)@.len() == old(destination)@.len(),
            Err(SweepError::Kernel(error)) => line_fails::<A, B, E, F>(
                *kernel,
                source@,
                old(destination)@.len() as int,
                error,
            ) && final(destination)@ == old(destination)@,
            Err(SweepError::Fft(_)) => false,
        },
{
    let len: usize = destination.len();
    match kernel(source, len) {
        Ok(output) => {
            copy_all(output.as_slice(), destination);
            Ok(())
        },
        Err(error) => Err(SweepError::Kernel(error)),
    }
}

fn sweep_whole_in_place<T: Copy, E, F: Fn(&[T], usize) -> Result<Vec<T>, E>>(
    kernel: &F,
    data: &mut [T],
) -> (outcome: Result<(), SweepError<E>>)
    requires
        line_kernel::<T, T, E, F>(*kernel),
    ensures
        match outcome {
            Ok(_) => line_maps::<T, T, E, F>(*kernel, old(data)@, final(data)@) && final(data)@.len() == old(data)@.len(),
            Err(SweepError::Kernel(error)) => line_fails::<T, T, E, F>(
                *kernel,
                old(data)@,
                old(data)@.len() as int,
                error,
            ) && final(data)@ == old(data)@,
            Err(SweepError::Fft(_)) => false,
        },
{
    let len: usize = data.len();
    match kernel(data, len) {
        Ok(output) => {
            copy_all(output.as_slice(), data);
            Ok(())
        },
        Err(error) => Err(SweepError::Kernel(error)),
    }
}

} // verus!
