//! The handoff of one allocation between the real and the complex side of a transform.

use vstd::arithmetic::div_mod::lemma_fundamental_div_mod;
use vstd::prelude::*;

use crate::array::ManyPencilArray;
use crate::error::FftError;
use crate::layout::Pencil;
use crate::lines::lemma_position_bound;
use crate::lines::line_at;
use crate::lines::line_fails;
use crate::lines::line_kernel;
use crate::lines::line_maps;
use crate::lines::rejects;
use crate::local::LocalR2cPlan;
use crate::recast::convert_lines_forward;
use crate::recast::convert_lines_reverse;
use crate::recast::convert_rows_forward;
use crate::recast::convert_rows_reverse;
use crate::recast::demote_reals;
use crate::recast::expand_blocks;
use crate::recast::forward_converted;
use crate::recast::promote_reals;
use crate::recast::real_parts;
use crate::recast::reverse_converted;
use crate::recast::some_line_fails;
use crate::registry::Stage;
use crate::scalar::flatten;
use crate::scalar::law_pairs_flatten;
use crate::scalar::Complex;
use crate::scalar::FftReal;
use crate::storage::checked_span;
use crate::sweep::larger;
use crate::sweep::max_len;
use crate::sweep::min_len;
use crate::sweep::smaller;
use crate::sweep::SweepError;

verus! {

/// What the shared allocation of an in-place array holds.
#[derive(Debug)]
pub enum HalfComplexStorage<R, const N: usize, const M: usize> {
    /// Real values in one of the layouts up to the boundary.
    Real(ManyPencilArray<R, N, M>),
    /// Complex values in one of the layouts from the boundary on.
    Complex(ManyPencilArray<Complex<R>, N, M>),
    /// Real values that mean nothing any more.
    PoisonedReal(Vec<R>),
    /// Complex values that mean nothing any more.
    PoisonedComplex(Vec<Complex<R>>),
}

/// The shared allocation of an in-place array, and the layouts of the side that is not active.
#[derive(Debug)]
pub struct SharedStorage<R, const N: usize, const M: usize> {
    /// Layouts of the real side, while the complex side is active.
    pub real_pencils: Option<Vec<Pencil<N, M>>>,
    /// Layouts of the complex side, while the real side is active.
    pub complex_pencils: Option<Vec<Pencil<N, M>>>,
    /// Real elements of the real side.
    pub real_storage_len: usize,
    /// Complex elements of the complex side.
    pub complex_storage_len: usize,
    /// Bytes that serve both sides.
    pub storage_bytes: usize,
    /// The allocation.
    pub storage: Option<HalfComplexStorage<R, N, M>>,
}

/// Where the boundary lies and how long its lines are.
#[derive(Clone, Copy, Debug)]
pub struct Boundary<const N: usize, const M: usize> {
    /// The stage at the boundary.
    pub stage: Stage<N, M>,
    /// Its line lengths.
    pub plan: LocalR2cPlan,
    /// Extra elements.
    pub extra: usize,
}

impl<const N: usize, const M: usize> Boundary<N, M> {
    /// Layouts and line lengths are well formed.
    pub open spec fn wf(&self) -> bool {
        self.stage.wf() && self.plan.wf()
    }

    /// Distance between neighbours of a boundary line on the real side, if it can be counted.
    pub open spec fn real_stride(&self) -> Option<usize> {
        self.stage.input.stride_along(self.stage.axis as int)
    }

    /// Distance between neighbours of a boundary line on the complex side, if it can be counted.
    pub open spec fn complex_stride(&self) -> Option<usize> {
        self.stage.output.stride_along(self.stage.axis as int)
    }
}

/// Elements of the buffers that hold one boundary line.
#[derive(Clone, Copy, Debug)]
pub struct LineBuffers {
    /// Elements of the buffer for a real source line, if there is one.
    pub real_source_line: Option<usize>,
    /// Elements of the buffer for a real result line.
    pub real_line: usize,
    /// Elements of the buffer for a complex source line.
    pub complex_source_line: usize,
    /// Elements of the buffer for a complex result line.
    pub complex_line: usize,
}

/// Interleaved lines of a stride; contiguous lines have one lane.
pub open spec fn lanes(stride: int) -> int {
    if stride > 1 {
        stride
    } else {
        1
    }
}

/// The spans of strided lines, or what keeps them out of a storage of `storage_len` elements.
pub open spec fn span_error(
    rows: int,
    stride: int,
    real_len: int,
    complex_len: int,
    storage_len: int,
) -> Option<FftError> {
    if stride <= 1 || rows % stride != 0 {
        Some(FftError::PreparationFailed)
    } else if (rows / stride) * real_len * stride > usize::MAX || (rows / stride) * complex_len
        * stride > usize::MAX {
        Some(FftError::PreparationFailed)
    } else if (rows / stride) * real_len * stride > storage_len || (rows / stride) * complex_len
        * stride > storage_len {
        Some(FftError::StorageLayoutMismatch)
    } else {
        None
    }
}

/// What keeps strided real lines from being converted in place.
pub open spec fn strided_forward_error(
    rows: int,
    stride: int,
    real_len: usize,
    complex_len: usize,
    storage_len: int,
    buffers: LineBuffers,
) -> Option<FftError> {
    if span_error(rows, stride, real_len as int, complex_len as int, storage_len) is Some {
        span_error(rows, stride, real_len as int, complex_len as int, storage_len)
    } else {
        match buffers.real_source_line {
            None => Some(FftError::WorkspaceMismatch),
            Some(source_line) => if source_line < real_len || buffers.real_line < real_len
                || buffers.complex_line < complex_len {
                Some(
                    FftError::WorkspaceTooSmall {
                        kind: "real/complex line",
                        required: larger(real_len, complex_len),
                        actual: smaller(smaller(source_line, buffers.real_line), buffers.complex_line),
                    },
                )
            } else {
                None
            },
        }
    }
}

/// What keeps strided complex lines from being converted in place.
pub open spec fn strided_reverse_error(
    rows: int,
    stride: int,
    real_len: usize,
    complex_len: usize,
    storage_len: int,
    buffers: LineBuffers,
) -> Option<FftError> {
    if span_error(rows, stride, real_len as int, complex_len as int, storage_len) is Some {
        span_error(rows, stride, real_len as int, complex_len as int, storage_len)
    } else if buffers.complex_source_line < complex_len || buffers.complex_line < complex_len
        || buffers.real_line < real_len {
        Some(
            FftError::WorkspaceTooSmall {
                kind: "complex/real line",
                required: larger(real_len, complex_len),
                actual: smaller(
                    smaller(buffers.complex_source_line, buffers.complex_line),
                    buffers.real_line,
                ),
            },
        )
    } else {
        None
    }
}

fn check_spans(
    rows: usize,
    stride: usize,
    real_len: usize,
    complex_len: usize,
    storage_len: usize,
) -> (result: Result<usize, FftError>)
    ensures
        match span_error(
            rows as int,
            stride as int,
            real_len as int,
            complex_len as int,
            storage_len as int,
        ) {
            Some(error) => result == Err::<usize, FftError>(error),
            None => result is Ok && result->Ok_0 == rows as int / stride as int,
        },
{
    if stride <= 1 || rows % stride != 0 {
        return Err(FftError::PreparationFailed);
    }
    let groups: usize = rows / stride;
    let real_span: usize = match checked_span(groups, real_len, stride) {
        Some(span) => span,
        None => {
            return Err(FftError::PreparationFailed);
        },
    };
    let complex_span: usize = match checked_span(groups, complex_len, stride) {
        Some(span) => span,
        None => {
            return Err(FftError::PreparationFailed);
        },
    };
    if real_span > storage_len || complex_span > storage_len {
        return Err(FftError::StorageLayoutMismatch);
    }
    Ok(groups)
}

/// Converts the strided real lines in the real parts of `storage` to half-complex lines. With
/// `skip_when_empty` nothing is checked but the stride when there is no line.
pub fn convert_strided_real_storage<R: FftReal, E, F: Fn(&[R], usize) -> Result<Vec<Complex<R>>, E>>(
    kernel: &F,
    storage: &mut Vec<Complex<R>>,
    rows: usize,
    plan: &LocalR2cPlan,
    stride: usize,
    buffers: &LineBuffers,
    skip_when_empty: bool,
) -> (result: Result<(), SweepError<E>>)
    requires
        line_kernel::<R, Complex<R>, E, F>(*kernel),
        plan.wf(),
    ensures
        final(storage)@.len() == old(storage)@.len(),
        if skip_when_empty && rows == 0 && stride > 1 {
            result is Ok && final(storage)@ == old(storage)@
        } else {
            match strided_forward_error(
                rows as int,
                stride as int,
                plan.real_len,
                plan.complex_len,
                old(storage)@.len() as int,
                *buffers,
            ) {
                Some(error) => result == Err::<(), SweepError<E>>(SweepError::Fft(error)) && final(
                    storage)@ == old(storage)@,
                None => match result {
                    Ok(_) => forward_converted::<R, E, F>(
                        *kernel,
                        real_parts(old(storage)@),
                        final(storage)@,
                        rows as int / stride as int,
                        plan.real_len as nat,
                        plan.complex_len as nat,
                        stride as int,
                    ),
                    Err(SweepError::Kernel(error)) => some_line_fails::<R, Complex<R>, E, F>(
                        *kernel,
                        real_parts(old(storage)@),
                        rows as int / stride as int,
                        plan.real_len as nat,
                        plan.complex_len as int,
                        stride as int,
                        error,
                    ),
                    Err(SweepError::Fft(_)) => false,
                },
            }
        },
{
    if skip_when_empty && rows == 0 && stride > 1 {
        return Ok(());
    }
    let groups: usize = match check_spans(
        rows,
        stride,
        plan.real_len,
        plan.complex_len,
        storage.len(),
    ) {
        Ok(groups) => groups,
        Err(error) => {
            return Err(SweepError::Fft(error));
        },
    };
    let source_line: usize = match buffers.real_source_line {
        Some(len) => len,
        None => {
            return Err(SweepError::Fft(FftError::WorkspaceMismatch));
        },
    };
    if source_line < plan.real_len || buffers.real_line < plan.real_len || buffers.complex_line
        < plan.complex_len {
        return Err(
            SweepError::Fft(
                FftError::WorkspaceTooSmall {
                    kind: "real/complex line",
                    required: max_len(plan.real_len, plan.complex_len),
                    actual: min_len(min_len(source_line, buffers.real_line), buffers.complex_line),
                },
            ),
        );
    }
    match convert_lines_forward(kernel, storage, groups, plan.real_len, plan.complex_len, stride) {
        Ok(done) => Ok(done),
        Err(error) => Err(SweepError::Kernel(error)),
    }
}

/// Converts strided half-complex lines of `storage` to real lines in its real parts. With
/// `skip_when_empty` nothing is checked but the stride when there is no line.
pub fn convert_strided_complex_storage<R: FftReal, E, F: Fn(&[Complex<R>], usize) -> Result<Vec<R>, E>>(
    kernel: &F,
    storage: &mut Vec<Complex<R>>,
    rows: usize,
    plan: &LocalR2cPlan,
    stride: usize,
    buffers: &LineBuffers,
    skip_when_empty: bool,
) -> (result: Result<(), SweepError<E>>)
    requires
        line_kernel::<Complex<R>, R, E, F>(*kernel),
        plan.wf(),
    ensures
        final(storage)@.len() == old(storage)@.len(),
        if skip_when_empty && rows == 0 && stride > 1 {
            result is Ok && final(storage)@ == old(storage)@
        } else {
            match strided_reverse_error(
                rows as int,
                stride as int,
                plan.real_len,
                plan.complex_len,
                old(storage)@.len() as int,
                *buffers,
            ) {
                Some(error) => result == Err::<(), SweepError<E>>(SweepError::Fft(error)),
                None => match result {
                    Ok(_) => reverse_converted::<R, E, F>(
                        *kernel,
                        old(storage)@,
                        real_parts(final(storage)@),
                        rows as int / stride as int,
                        plan.complex_len as nat,
                        plan.real_len as nat,
                        stride as int,
                    ),
                    Err(SweepError::Kernel(error)) => some_line_fails::<Complex<R>, R, E, F>(
                        *kernel,
                        old(storage)@,
                        rows as int / stride as int,
                        plan.complex_len as nat,
                        plan.real_len as int,
                        stride as int,
                        error,
                    ),
                    Err(SweepError::Fft(_)) => false,
                },
            }
        },
{
    if skip_when_empty && rows == 0 && stride > 1 {
        return Ok(());
    }
    let groups: usize = match check_spans(
        rows,
        stride,
        plan.real_len,
        plan.complex_len,
        storage.len(),
    ) {
        Ok(groups) => groups,
        Err(error) => {
            return Err(SweepError::Fft(error));
        },
    };
    let ghost original = storage@;
    expand_blocks(storage, groups, plan.complex_len, plan.real_len, stride);
    let ghost expanded = storage@;
    if buffers.complex_source_line < plan.complex_len || buffers.complex_line < plan.complex_len
        || buffers.real_line < plan.real_len {
        return Err(
            SweepError::Fft(
                FftError::WorkspaceTooSmall {
                    kind: "complex/real line",
                    required: max_len(plan.real_len, plan.complex_len),
                    actual: min_len(
                        min_len(buffers.complex_source_line, buffers.complex_line),
                        buffers.real_line,
                    ),
                },
            ),
        );
    }
    match convert_lines_reverse(kernel, storage, groups, plan.complex_len, plan.real_len, stride) {
        Ok(done) => {
            proof {
                assert forall|p: int, q: int|
                    #![trigger line_at(
                        real_parts(storage@),
                        p,
                        q,
                        plan.real_len as nat,
                        stride as int,
                    )]
                    0 <= p < groups && 0 <= q < stride implies line_maps::<Complex<R>, R, E, F>(
                    *kernel,
                    line_at(original, p, q, plan.complex_len as nat, stride as int),
                    line_at(real_parts(storage@), p, q, plan.real_len as nat, stride as int),
                ) by {
                    assert(line_at(
                        expanded,
                        p,
                        q,
                        plan.real_len as nat,
                        stride as int,
                    ).take(plan.complex_len as int) == line_at(
                        original,
                        p,
                        q,
                        plan.complex_len as nat,
                        stride as int,
                    ));
                }
            }
            Ok(done)
        },
        Err(error) => {
            proof {
                let (p, q) = choose|p: int, q: int|
                    0 <= p < groups && 0 <= q < stride && line_fails::<
                        Complex<R>,
                        R,
                        E,
                        F,
                    >(
                        *kernel,
                        (#[trigger] line_at(
                            expanded,
                            p,
                            q,
                            plan.real_len as nat,
                            stride as int,
                        )).take(plan.complex_len as int),
                        plan.real_len as int,
                        error,
                    );
                assert(line_at(expanded, p, q, plan.real_len as nat, stride as int).take(
                    plan.complex_len as int,
                ) == line_at(original, p, q, plan.complex_len as nat, stride as int));
            }
            Err(SweepError::Kernel(error))
        },
    }
}

/// Conversions carry over to arrays that agree on the lines.
pub proof fn lemma_forward_transfer<R, E, F: Fn(&[R], usize) -> Result<Vec<Complex<R>>, E>>(
    kernel: F,
    reals: Seq<R>,
    same_reals: Seq<R>,
    complexes: Seq<Complex<R>>,
    same_complexes: Seq<Complex<R>>,
    groups: int,
    real_len: nat,
    complex_len: nat,
    stride: int,
)
    requires
        forward_converted::<R, E, F>(
            kernel,
            reals,
            complexes,
            groups,
            real_len,
            complex_len,
            stride,
        ),
        forall|i: int|
            0 <= i < groups * real_len * stride ==> #[trigger] same_reals[i] == reals[i],
        forall|i: int|
            0 <= i < groups * complex_len * stride ==> #[trigger] same_complexes[i] == complexes[i],
    ensures
        forward_converted::<R, E, F>(
            kernel,
            same_reals,
            same_complexes,
            groups,
            real_len,
            complex_len,
            stride,
        ),
{
    assert forall|p: int, q: int|
        #![trigger line_at(same_complexes, p, q, complex_len, stride)]
        0 <= p < groups && 0 <= q < stride implies line_maps::<R, Complex<R>, E, F>(
        kernel,
        line_at(same_reals, p, q, real_len, stride),
        line_at(same_complexes, p, q, complex_len, stride),
    ) by {
        lemma_same_line(reals, same_reals, p, q, real_len, stride, groups);
        lemma_same_line(complexes, same_complexes, p, q, complex_len, stride, groups);
        assert(line_maps::<R, Complex<R>, E, F>(
            kernel,
            line_at(reals, p, q, real_len, stride),
            line_at(complexes, p, q, complex_len, stride),
        ));
    }
}

/// Conversions carry over to arrays that agree on the lines.
pub proof fn lemma_reverse_transfer<R, E, F: Fn(&[Complex<R>], usize) -> Result<Vec<R>, E>>(
    kernel: F,
    complexes: Seq<Complex<R>>,
    same_complexes: Seq<Complex<R>>,
    reals: Seq<R>,
    same_reals: Seq<R>,
    groups: int,
    complex_len: nat,
    real_len: nat,
    stride: int,
)
    requires
        reverse_converted::<R, E, F>(
            kernel,
            complexes,
            reals,
            groups,
            complex_len,
            real_len,
            stride,
        ),
        forall|i: int|
            0 <= i < groups * real_len * stride ==> #[trigger] same_reals[i] == reals[i],
        forall|i: int|
            0 <= i < groups * complex_len * stride ==> #[trigger] same_complexes[i] == complexes[i],
    ensures
        reverse_converted::<R, E, F>(
            kernel,
            same_complexes,
            same_reals,
            groups,
            complex_len,
            real_len,
            stride,
        ),
{
    assert forall|p: int, q: int|
        #![trigger line_at(same_reals, p, q, real_len, stride)]
        0 <= p < groups && 0 <= q < stride implies line_maps::<Complex<R>, R, E, F>(
        kernel,
        line_at(same_complexes, p, q, complex_len, stride),
        line_at(same_reals, p, q, real_len, stride),
    ) by {
        lemma_same_line(reals, same_reals, p, q, real_len, stride, groups);
        lemma_same_line(complexes, same_complexes, p, q, complex_len, stride, groups);
        assert(line_maps::<Complex<R>, R, E, F>(
            kernel,
            line_at(complexes, p, q, complex_len, stride),
            line_at(reals, p, q, real_len, stride),
        ));
    }
}

proof fn lemma_same_line<T>(
    left: Seq<T>,
    right: Seq<T>,
    block: int,
    lane: int,
    len: nat,
    stride: int,
    count: int,
)
    requires
        0 <= block < count,
        0 <= lane < stride,
        forall|i: int| 0 <= i < count * len * stride ==> #[trigger] right[i] == left[i],
    ensures
        line_at(right, block, lane, len, stride) == line_at(left, block, lane, len, stride),
{
    assert forall|k: int| 0 <= k < len implies line_at(right, block, lane, len, stride)[k]
        == line_at(left, block, lane, len, stride)[k] by {
        lemma_position_bound(block, lane, k, count, len as int, stride);
    }
    assert(line_at(right, block, lane, len, stride) =~= line_at(left, block, lane, len, stride));
}

/// What keeps a recast allocation from being converted forward.
pub open spec fn recast_forward_error(
    rows: int,
    stride: int,
    plan: LocalR2cPlan,
    real_count: int,
    storage_len: int,
    buffers: LineBuffers,
    skip_when_empty: bool,
) -> Option<FftError> {
    if stride > 1 {
        if real_count > storage_len {
            Some(FftError::StorageLayoutMismatch)
        } else if skip_when_empty && rows == 0 {
            None
        } else {
            strided_forward_error(
                rows,
                stride,
                plan.real_len,
                plan.complex_len,
                storage_len,
                buffers,
            )
        }
    } else if rows * plan.complex_len > storage_len {
        Some(FftError::PreparationFailed)
    } else {
        None
    }
}

/// Converts the boundary lines of an allocation that holds `real_count` packed reals and was
/// recast to complex values.
pub fn convert_recast_forward<R: FftReal, E, F: Fn(&[R], usize) -> Result<Vec<Complex<R>>, E>>(
    kernel: &F,
    storage: &mut Vec<Complex<R>>,
    plan: &LocalR2cPlan,
    rows: usize,
    stride: usize,
    real_count: usize,
    buffers: &LineBuffers,
    skip_when_empty: bool,
) -> (result: Result<(), SweepError<E>>)
    requires
        line_kernel::<R, Complex<R>, E, F>(*kernel),
        plan.wf(),
    ensures
        final(storage)@.len() == old(storage)@.len(),
        match recast_forward_error(
            rows as int,
            stride as int,
            *plan,
            real_count as int,
            old(storage)@.len() as int,
            *buffers,
            skip_when_empty,
        ) {
            Some(error) => result == Err::<(), SweepError<E>>(SweepError::Fft(error)),
            None => match result {
                Ok(_) => rows * plan.real_len <= real_count ==> forward_converted::<R, E, F>(
                    *kernel,
                    flatten(old(storage)@),
                    final(storage)@,
                    rows as int / lanes(stride as int),
                    plan.real_len as nat,
                    plan.complex_len as nat,
                    lanes(stride as int),
                ),
                Err(SweepError::Kernel(error)) => {
                    &&& rejects::<R, Complex<R>, E, F>(*kernel, error)
                    &&& rows * plan.real_len <= real_count ==> some_line_fails::<
                        R,
                        Complex<R>,
                        E,
                        F,
                    >(
                        *kernel,
                        flatten(old(storage)@),
                        rows as int / lanes(stride as int),
                        plan.real_len as nat,
                        plan.complex_len as int,
                        lanes(stride as int),
                        error,
                    )
                },
                Err(SweepError::Fft(_)) => false,
            },
        },
{
    if stride <= 1 {
        return convert_rows_forward(kernel, storage, rows, plan.real_len, plan.complex_len);
    }
    let ghost original = storage@;
    match promote_reals(storage, real_count) {
        Ok(_) => {},
        Err(error) => {
            return Err(SweepError::Fft(error));
        },
    }
    let ghost promoted = storage@;
    let result = convert_strided_real_storage(
        kernel,
        storage,
        rows,
        plan,
        stride,
        buffers,
        skip_when_empty,
    );
    proof {
        let groups = rows as int / stride as int;
        if rows * plan.real_len <= real_count && rows % stride == 0 {
            lemma_fundamental_div_mod(rows as int, stride as int);
            assert(groups * plan.real_len * stride == rows * plan.real_len) by (nonlinear_arith)
                requires
                    rows as int == stride * groups,
            ;
            assert forall|i: int| 0 <= i < groups * plan.real_len * stride implies #[trigger] flatten(
                original,
            )[i] == real_parts(promoted)[i] by {
                assert(promoted[i]@[0] == flatten(original)[i]);
            }
            if result is Ok && rows > 0 {
                lemma_forward_transfer::<R, E, F>(
                    *kernel,
                    real_parts(promoted),
                    flatten(original),
                    storage@,
                    storage@,
                    groups,
                    plan.real_len as nat,
                    plan.complex_len as nat,
                    stride as int,
                );
            } else if result is Err && result->Err_0 is Kernel {
                lemma_fails_transfer::<R, Complex<R>, E, F>(
                    *kernel,
                    real_parts(promoted),
                    flatten(original),
                    groups,
                    plan.real_len as nat,
                    plan.complex_len as int,
                    stride as int,
                    result->Err_0->Kernel_0,
                );
            }
        }
        if rows == 0 {
            assert(groups == 0);
        }
    }
    result
}

/// A failure carries over to an array that agrees on the lines.
pub proof fn lemma_fails_transfer<A, B, E, F: Fn(&[A], usize) -> Result<Vec<B>, E>>(
    kernel: F,
    source: Seq<A>,
    same_source: Seq<A>,
    groups: int,
    source_len: nat,
    result_len: int,
    stride: int,
    error: E,
)
    requires
        some_line_fails::<A, B, E, F>(
            kernel,
            source,
            groups,
            source_len,
            result_len,
            stride,
            error,
        ),
        forall|i: int|
            0 <= i < groups * source_len * stride ==> #[trigger] same_source[i] == source[i],
    ensures
        some_line_fails::<A, B, E, F>(
            kernel,
            same_source,
            groups,
            source_len,
            result_len,
            stride,
            error,
        ),
{
    let (p, q) = choose|p: int, q: int|
        0 <= p < groups && 0 <= q < stride && line_fails::<A, B, E, F>(
            kernel,
            #[trigger] line_at(source, p, q, source_len, stride),
            result_len,
            error,
        );
    lemma_same_line(source, same_source, p, q, source_len, stride, groups);
    assert(line_fails::<A, B, E, F>(
        kernel,
        line_at(same_source, p, q, source_len, stride),
        result_len,
        error,
    ));
}

/// What a reverse conversion left when it failed.
#[derive(Debug)]
pub enum ReverseFailure<R, E> {
    /// It failed before the allocation was recast.
    Complex(Vec<Complex<R>>, SweepError<E>),
    /// It failed after the allocation was recast.
    Real(Vec<R>, SweepError<E>),
}

impl<R, E> ReverseFailure<R, E> {
    /// Why the conversion failed.
    pub open spec fn error(self) -> SweepError<E> {
        match self {
            ReverseFailure::Complex(_, error) => error,
            ReverseFailure::Real(_, error) => error,
        }
    }

    /// The conversion left `storage_len` complex values, or twice as many reals if it failed after
    /// the recast.
    pub open spec fn left_by(self, storage_len: int, early: bool) -> bool {
        match self {
            ReverseFailure::Complex(same, _) => early && same@.len() == storage_len,
            ReverseFailure::Real(same, _) => !early && same@.len() == 2 * storage_len,
        }
    }
}

/// What keeps an allocation from being converted in reverse. With `check_len` contiguous lines
/// are refused when the real side is longer than the allocation.
pub open spec fn recast_reverse_error(
    rows: int,
    stride: int,
    plan: LocalR2cPlan,
    real_count: int,
    storage_len: int,
    buffers: LineBuffers,
    skip_when_empty: bool,
    check_len: bool,
) -> Option<FftError> {
    if stride > 1 {
        if !(skip_when_empty && rows == 0) && strided_reverse_error(
            rows,
            stride,
            plan.real_len,
            plan.complex_len,
            storage_len,
            buffers,
        ) is Some {
            strided_reverse_error(
                rows,
                stride,
                plan.real_len,
                plan.complex_len,
                storage_len,
                buffers,
            )
        } else if real_count > 2 * storage_len || real_count > storage_len {
            Some(FftError::StorageLayoutMismatch)
        } else {
            None
        }
    } else if check_len && real_count > 2 * storage_len {
        Some(FftError::StorageLayoutMismatch)
    } else if rows * plan.complex_len > storage_len {
        Some(FftError::PreparationFailed)
    } else {
        None
    }
}

/// A conversion in reverse that fails with `error` fails before the allocation is recast: strided
/// lines are converted first, contiguous ones afterwards.
pub open spec fn fails_before_recast<E>(
    rows: int,
    stride: int,
    plan: LocalR2cPlan,
    storage_len: int,
    buffers: LineBuffers,
    skip_when_empty: bool,
    error: SweepError<E>,
) -> bool {
    &&& stride > 1
    &&& error is Kernel || (!(skip_when_empty && rows == 0) && strided_reverse_error(
        rows,
        stride,
        plan.real_len,
        plan.complex_len,
        storage_len,
        buffers,
    ) is Some)
}

/// Converts the boundary lines of an allocation of complex values and recasts it to reals, of
/// which the first `real_count` count.
pub fn convert_recast_reverse<R: FftReal, E, F: Fn(&[Complex<R>], usize) -> Result<Vec<R>, E>>(
    kernel: &F,
    storage: Vec<Complex<R>>,
    plan: &LocalR2cPlan,
    rows: usize,
    stride: usize,
    real_count: usize,
    buffers: &LineBuffers,
    skip_when_empty: bool,
    check_len: bool,
) -> (result: Result<Vec<R>, ReverseFailure<R, E>>)
    requires
        line_kernel::<Complex<R>, R, E, F>(*kernel),
        plan.wf(),
    ensures
        match result {
            Ok(reals) => {
                &&& recast_reverse_error(
                    rows as int,
                    stride as int,
                    *plan,
                    real_count as int,
                    storage@.len() as int,
                    *buffers,
                    skip_when_empty,
                    check_len,
                ) is None
                &&& reals@.len() == 2 * storage@.len()
                &&& (stride > 1 ==> rows * plan.real_len <= real_count) ==> reverse_converted::<
                    R,
                    E,
                    F,
                >(
                    *kernel,
                    storage@,
                    reals@,
                    rows as int / lanes(stride as int),
                    plan.complex_len as nat,
                    plan.real_len as nat,
                    lanes(stride as int),
                )
            },
            Err(failure) => failure.left_by(
                storage@.len() as int,
                fails_before_recast(
                    rows as int,
                    stride as int,
                    *plan,
                    storage@.len() as int,
                    *buffers,
                    skip_when_empty,
                    failure.error(),
                ),
            ) && match failure.error() {
                SweepError::Fft(error) => recast_reverse_error(
                    rows as int,
                    stride as int,
                    *plan,
                    real_count as int,
                    storage@.len() as int,
                    *buffers,
                    skip_when_empty,
                    check_len,
                ) == Some(error),
                SweepError::Kernel(error) => (stride <= 1 ==> recast_reverse_error(
                    rows as int,
                    stride as int,
                    *plan,
                    real_count as int,
                    storage@.len() as int,
                    *buffers,
                    skip_when_empty,
                    check_len,
                ) != Some(FftError::StorageLayoutMismatch)) && (stride > 1 && !(skip_when_empty && rows
                    == 0) ==> strided_reverse_error(
                    rows as int,
                    stride as int,
                    plan.real_len,
                    plan.complex_len,
                    storage@.len() as int,
                    *buffers,
                ) is None) && some_line_fails::<Complex<R>, R, E, F>(
                    *kernel,
                    storage@,
                    rows as int / lanes(stride as int),
                    plan.complex_len as nat,
                    plan.real_len as int,
                    lanes(stride as int),
                    error,
                ),
            },
        },
{
    let ghost original = storage@;
    if stride > 1 {
        let mut lines: Vec<Complex<R>> = storage;
        match convert_strided_complex_storage(
            kernel,
            &mut lines,
            rows,
            plan,
            stride,
            buffers,
            skip_when_empty,
        ) {
            Ok(_) => {},
            Err(error) => {
                return Err(ReverseFailure::Complex(lines, error));
            },
        }
        let ghost converted = lines@;
        let mut reals: Vec<R> = match R::recast_to_scalars(lines) {
            Ok(reals) => reals,
            Err(same) => {
                return Err(
                    ReverseFailure::Complex(same, SweepError::Fft(FftError::StorageLayoutMismatch)),
                );
            },
        };
        let ghost recast = reals@;
        assert(recast == flatten(converted));
        if real_count > reals.len() {
            return Err(
                ReverseFailure::Real(reals, SweepError::Fft(FftError::StorageLayoutMismatch)),
            );
        }
        match demote_reals(&mut reals, real_count) {
            Ok(_) => {},
            Err(error) => {
                return Err(ReverseFailure::Real(reals, SweepError::Fft(error)));
            },
        }
        proof {
            let groups = rows as int / stride as int;
            if rows == 0 {
                assert(groups == 0);
            }
            if rows > 0 && rows * plan.real_len <= real_count {
                lemma_fundamental_div_mod(rows as int, stride as int);
                assert(groups * plan.real_len * stride == rows * plan.real_len) by (nonlinear_arith)
                    requires
                        rows as int == stride * groups,
                ;
                assert forall|i: int|
                    0 <= i < groups * plan.real_len * stride implies #[trigger] reals@[i]
                    == real_parts(converted)[i] by {
                    assert(reals@[i] == recast[2 * i]);
                    assert(flatten(converted)[2 * i] == converted[i]@[0]);
                }
                lemma_reverse_transfer::<R, E, F>(
                    *kernel,
                    original,
                    original,
                    real_parts(converted),
                    reals@,
                    groups,
                    plan.complex_len as nat,
                    plan.real_len as nat,
                    stride as int,
                );
            }
        }
        return Ok(reals);
    }
    let mut reals: Vec<R> = match R::recast_to_scalars(storage) {
        Ok(reals) => reals,
        Err(same) => {
            return Err(
                ReverseFailure::Complex(same, SweepError::Fft(FftError::StorageLayoutMismatch)),
            );
        },
    };
    proof {
        law_pairs_flatten(original);
    }
    if check_len && real_count > reals.len() {
        return Err(ReverseFailure::Real(reals, SweepError::Fft(FftError::StorageLayoutMismatch)));
    }
    match convert_rows_reverse(kernel, &mut reals, rows, plan.complex_len, plan.real_len) {
        Ok(_) => Ok(reals),
        Err(error) => Err(ReverseFailure::Real(reals, error)),
    }
}

} // verus!
