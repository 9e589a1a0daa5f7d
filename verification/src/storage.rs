//! How large the one allocation is that holds the real and the complex side of a transform, and
//! how the boundary lines lie in it.

use vstd::layout::align_of;
use vstd::layout::size_of;
use vstd::prelude::*;

use crate::error::FftError;
use crate::error::MixedError;
use crate::layout::memory_stride;
use crate::layout::Pencil;
use crate::local::LocalR2cPlan;
use crate::registry::inputs_of;
use crate::registry::largest_local_len;
use crate::registry::lemma_largest_local_len;
use crate::registry::outputs_of;
use crate::registry::stages_wf;
use crate::registry::Stage;
use crate::scalar::pair_size;
use crate::scalar::Complex;
use crate::scalar::FftReal;
use crate::sweep::max_len;

verus! {

/// Lengths of the shared allocation.
#[derive(Clone, Copy, Debug, PartialEq, Eq, Structural)]
pub struct StorageNeeds {
    /// Real elements of the largest layout up to the boundary.
    pub real_len: usize,
    /// Complex elements of the largest layout from the boundary on.
    pub complex_len: usize,
    /// Bytes that serve both sides.
    pub storage_bytes: usize,
    /// The same, in whole complex values.
    pub complex_capacity: usize,
}

/// Real elements of the largest layout up to the boundary, over all extra elements.
pub open spec fn real_need<const N: usize, const M: usize>(
    stages: Seq<Stage<N, M>>,
    boundary: int,
    extra: int,
) -> int {
    largest_local_len(inputs_of(stages.take(boundary + 1))) * extra
}

/// Complex elements of the largest layout from the boundary on, over all extra elements.
pub open spec fn complex_need<const N: usize, const M: usize>(
    stages: Seq<Stage<N, M>>,
    boundary: int,
    extra: int,
) -> int {
    largest_local_len(outputs_of(stages.skip(boundary))) * extra
}

/// Bytes that serve both sides. Strided boundary lines are spread to one complex value for each
/// real one before they are converted.
pub open spec fn bytes_need(reals: int, complexes: int, stride: int, scalar_bytes: int) -> int {
    if stride > 1 {
        if reals < complexes {
            complexes * (2 * scalar_bytes)
        } else {
            reals * (2 * scalar_bytes)
        }
    } else {
        if reals * scalar_bytes < complexes * (2 * scalar_bytes) {
            complexes * (2 * scalar_bytes)
        } else {
            reals * scalar_bytes
        }
    }
}

/// Lengths of the shared allocation, if it can be addressed.
pub open spec fn storage_needs<const N: usize, const M: usize>(
    stages: Seq<Stage<N, M>>,
    boundary: Option<usize>,
    extra: int,
    scalar_bytes: int,
) -> Option<StorageNeeds> {
    match boundary {
        None => None,
        Some(index) => match stages[index as int].input.stride_along(
            stages[index as int].axis as int,
        ) {
            None => None,
            Some(stride) => {
                let reals = real_need(stages, index as int, extra);
                let complexes = complex_need(stages, index as int, extra);
                let bytes = bytes_need(reals, complexes, stride as int, scalar_bytes);
                if bytes > isize::MAX {
                    None
                } else {
                    Some(
                        StorageNeeds {
                            real_len: reals as usize,
                            complex_len: complexes as usize,
                            storage_bytes: bytes as usize,
                            complex_capacity: ((bytes + 2 * scalar_bytes - 1) / (2
                                * scalar_bytes)) as usize,
                        },
                    )
                }
            },
        },
    }
}

fn max_input_len<const N: usize, const M: usize>(stages: &Vec<Stage<N, M>>, count: usize) -> (len:
    usize)
    requires
        count <= stages@.len(),
    ensures
        len == largest_local_len(inputs_of(stages@.take(count as int))),
{
    let ghost all = inputs_of(stages@.take(count as int));
    let mut len: usize = 0;
    let mut i: usize = 0;
    assert(all.take(0) =~= Seq::<Pencil<N, M>>::empty());
    while i < count
        invariant
            i <= count <= stages@.len(),
            all == inputs_of(stages@.take(count as int)),
            len == largest_local_len(all.take(i as int)),
        decreases count - i,
    {
        proof {
            assert(all.take(i + 1).drop_last() =~= all.take(i as int));
            assert(all.take(i + 1).last() == stages@[i as int].input);
        }
        len = max_len(len, stages[i].input.local_len);
        i += 1;
    }
    assert(all.take(count as int) =~= all);
    len
}

fn max_output_len<const N: usize, const M: usize>(stages: &Vec<Stage<N, M>>, first: usize) -> (len:
    usize)
    requires
        first <= stages@.len(),
    ensures
        len == largest_local_len(outputs_of(stages@.skip(first as int))),
{
    let ghost all = outputs_of(stages@.skip(first as int));
    let mut len: usize = 0;
    let mut i: usize = first;
    assert(all.take(0) =~= Seq::<Pencil<N, M>>::empty());
    while i < stages.len()
        invariant
            first <= i <= stages@.len(),
            all == outputs_of(stages@.skip(first as int)),
            len == largest_local_len(all.take(i - first)),
        decreases stages@.len() - i,
    {
        proof {
            assert(all.take(i - first + 1).drop_last() =~= all.take(i - first));
            assert(all.take(i - first + 1).last() == stages@[i as int].output);
        }
        len = max_len(len, stages[i].output.local_len);
        i += 1;
    }
    assert(all.take(stages@.len() - first) =~= all);
    len
}

/// The bytes that serve both sides serve each.
pub proof fn lemma_bytes_bound(reals: int, complexes: int, stride: int, scalar_bytes: int)
    requires
        0 <= reals,
        0 <= complexes,
        1 <= scalar_bytes,
    ensures
        reals <= reals * scalar_bytes <= bytes_need(reals, complexes, stride, scalar_bytes),
        complexes <= complexes * (2 * scalar_bytes) <= bytes_need(reals, complexes, stride, scalar_bytes),
{
    assert(reals <= reals * scalar_bytes) by (nonlinear_arith)
        requires
            0 <= reals,
            1 <= scalar_bytes,
    ;
    assert(reals * scalar_bytes <= reals * (2 * scalar_bytes)) by (nonlinear_arith)
        requires
            0 <= reals,
            1 <= scalar_bytes,
    ;
    assert(complexes <= complexes * (2 * scalar_bytes)) by (nonlinear_arith)
        requires
            0 <= complexes,
            1 <= scalar_bytes,
    ;
    if reals < complexes {
        assert(reals * (2 * scalar_bytes) <= complexes * (2 * scalar_bytes)) by (nonlinear_arith)
            requires
                reals < complexes,
                1 <= scalar_bytes,
        ;
    } else {
        assert(complexes * (2 * scalar_bytes) <= reals * (2 * scalar_bytes)) by (nonlinear_arith)
            requires
                complexes <= reals,
                1 <= scalar_bytes,
        ;
    }
}

/// Returns the lengths of the shared allocation of a plan with its boundary at `boundary`.
pub fn in_place_storage_requirements<const N: usize, const M: usize>(
    stages: &Vec<Stage<N, M>>,
    boundary: Option<usize>,
    extra: usize,
    scalar_bytes: usize,
) -> (result: Result<StorageNeeds, FftError>)
    requires
        stages_wf(stages@),
        boundary is Some ==> boundary->0 < stages@.len(),
        scalar_bytes == 4 || scalar_bytes == 8,
    ensures
        result == match storage_needs(stages@, boundary, extra as int, scalar_bytes as int) {
            Some(needs) => Ok(needs),
            None => Err(FftError::PreparationFailed),
        },
{
    let index: usize = match boundary {
        Some(index) => index,
        None => {
            return Err(FftError::PreparationFailed);
        },
    };
    let stride: usize = match memory_stride(&stages[index].input, stages[index].axis) {
        Ok(stride) => stride,
        Err(error) => {
            return Err(error);
        },
    };
    let ghost reals = real_need(stages@, index as int, extra as int);
    let ghost complexes = complex_need(stages@, index as int, extra as int);
    proof {
        assert(0 <= reals && 0 <= complexes) by (nonlinear_arith)
            requires
                reals == largest_local_len(inputs_of(stages@.take(index + 1))) * extra,
                complexes == largest_local_len(outputs_of(stages@.skip(index as int))) * extra,
                extra >= 0,
        ;
        lemma_bytes_bound(reals, complexes, stride as int, scalar_bytes as int);
    }
    let count: usize = stages.len();
    assert(index < count);
    let real_len: usize = match max_input_len(stages, index + 1).checked_mul(extra) {
        Some(len) => len,
        None => {
            return Err(FftError::PreparationFailed);
        },
    };
    let complex_len: usize = match max_output_len(stages, index).checked_mul(extra) {
        Some(len) => len,
        None => {
            return Err(FftError::PreparationFailed);
        },
    };
    let complex_size: usize = 2 * scalar_bytes;
    let real_bytes: usize = match real_len.checked_mul(scalar_bytes) {
        Some(bytes) => bytes,
        None => {
            return Err(FftError::PreparationFailed);
        },
    };
    let complex_bytes: usize = match complex_len.checked_mul(complex_size) {
        Some(bytes) => bytes,
        None => {
            return Err(FftError::PreparationFailed);
        },
    };
    let storage_bytes: usize = if stride > 1 {
        match max_len(real_len, complex_len).checked_mul(complex_size) {
            Some(bytes) => bytes,
            None => {
                return Err(FftError::PreparationFailed);
            },
        }
    } else {
        max_len(real_bytes, complex_bytes)
    };
    if storage_bytes > isize::MAX as usize {
        return Err(FftError::PreparationFailed);
    }
    let rounded: usize = match storage_bytes.checked_add(complex_size - 1) {
        Some(rounded) => rounded,
        None => {
            return Err(FftError::PreparationFailed);
        },
    };
    let complex_capacity: usize = rounded / complex_size;
    Ok(StorageNeeds { real_len, complex_len, storage_bytes, complex_capacity })
}

/// The allocation holds every layout of both sides, and every real value spread to a complex
/// one where the boundary lines are strided.
pub proof fn law_storage_suffices<const N: usize, const M: usize>(
    stages: Seq<Stage<N, M>>,
    boundary: usize,
    extra: int,
    scalar_bytes: int,
)
    requires
        boundary < stages.len(),
        0 <= extra,
        1 <= scalar_bytes <= 8,
        storage_needs(stages, Some(boundary), extra, scalar_bytes) is Some,
    ensures
        ({
            let needs = storage_needs(stages, Some(boundary), extra, scalar_bytes)->0;
            let stride = stages[boundary as int].input.stride_along(
                stages[boundary as int].axis as int,
            )->0;
            &&& forall|i: int|
                0 <= i <= boundary ==> (#[trigger] stages[i]).input.local_len * extra
                    <= needs.real_len
            &&& forall|i: int|
                boundary <= i < stages.len() ==> (#[trigger] stages[i]).output.local_len * extra
                    <= needs.complex_len
            &&& needs.real_len * scalar_bytes <= needs.storage_bytes
            &&& needs.complex_len * (2 * scalar_bytes) <= needs.storage_bytes
            &&& needs.storage_bytes <= needs.complex_capacity * (2 * scalar_bytes)
            &&& needs.complex_len <= needs.complex_capacity
            &&& needs.real_len <= 2 * needs.complex_capacity
            &&& stride > 1 ==> needs.real_len <= needs.complex_capacity
        }),
{
    let needs = storage_needs(stages, Some(boundary), extra, scalar_bytes)->0;
    let stride = stages[boundary as int].input.stride_along(stages[boundary as int].axis as int)->0;
    let inputs = inputs_of(stages.take(boundary + 1));
    let outputs = outputs_of(stages.skip(boundary as int));
    let reals = real_need(stages, boundary as int, extra);
    let complexes = complex_need(stages, boundary as int, extra);
    lemma_largest_local_len(inputs);
    lemma_largest_local_len(outputs);
    assert(0 <= reals && 0 <= complexes) by (nonlinear_arith)
        requires
            reals == largest_local_len(inputs) * extra,
            complexes == largest_local_len(outputs) * extra,
            extra >= 0,
    ;
    lemma_bytes_bound(reals, complexes, stride as int, scalar_bytes);
    assert forall|i: int| 0 <= i <= boundary implies (#[trigger] stages[i]).input.local_len * extra
        <= needs.real_len by {
        let len = stages[i].input.local_len;
        assert(inputs[i] == stages[i].input);
        let most = largest_local_len(inputs);
        assert(len * extra <= most * extra) by (nonlinear_arith)
            requires
                len <= most,
                0 <= extra,
        ;
    }
    assert forall|i: int| boundary <= i < stages.len() implies (
    #[trigger] stages[i]).output.local_len * extra <= needs.complex_len by {
        let len = stages[i].output.local_len;
        assert(outputs[i - boundary] == stages[i].output);
        let most = largest_local_len(outputs);
        assert(len * extra <= most * extra) by (nonlinear_arith)
            requires
                len <= most,
                0 <= extra,
        ;
    }
    let bytes = bytes_need(reals, complexes, stride as int, scalar_bytes);
    let size = 2 * scalar_bytes;
    let capacity = (bytes + size - 1) / size;
    assert(bytes <= capacity * size && capacity <= bytes && 0 <= capacity) by (nonlinear_arith)
        requires
            capacity == (bytes + size - 1) / size,
            size >= 2,
            bytes >= 0,
    ;
    assert(complexes <= capacity) by (nonlinear_arith)
        requires
            complexes * size <= capacity * size,
            size >= 2,
    ;
    assert(reals <= 2 * capacity) by (nonlinear_arith)
        requires
            reals * scalar_bytes <= capacity * (2 * scalar_bytes),
            scalar_bytes >= 1,
    ;
    if stride > 1 {
        assert(reals * size <= bytes) by (nonlinear_arith)
            requires
                reals < complexes ==> bytes == complexes * size,
                reals >= complexes ==> bytes == reals * size,
                size >= 2,
        ;
        assert(reals <= capacity) by (nonlinear_arith)
            requires
                reals * size <= capacity * size,
                size >= 2,
        ;
    }
}

/// Complex values that the storage must hold while the boundary is converted, if they can be
/// counted.
pub open spec fn promoted_len(stride: Option<usize>, real_len: int, complex_len: int, scalar_bytes: int) -> Option<
    int,
> {
    match stride {
        None => None,
        Some(step) => if step > 1 {
            Some(
                if real_len < complex_len {
                    complex_len
                } else {
                    real_len
                },
            )
        } else if real_len * scalar_bytes + 2 * scalar_bytes - 1 > usize::MAX {
            None
        } else {
            Some(
                if (real_len + 1) / 2 < complex_len {
                    complex_len
                } else {
                    (real_len + 1) / 2
                },
            )
        },
    }
}

/// Returns the complex values that the storage must hold while the boundary is converted.
pub fn promoted_complex_len<const N: usize, const M: usize>(
    stage: &Stage<N, M>,
    real_len: usize,
    complex_len: usize,
    scalar_bytes: usize,
) -> (result: Result<usize, FftError>)
    requires
        stage.wf(),
        scalar_bytes == 4 || scalar_bytes == 8,
    ensures
        match promoted_len(
            stage.input.stride_along(stage.axis as int),
            real_len as int,
            complex_len as int,
            scalar_bytes as int,
        ) {
            Some(len) => result is Ok && result->Ok_0 == len,
            None => result == Err::<usize, FftError>(FftError::PreparationFailed),
        },
{
    let stride: usize = match memory_stride(&stage.input, stage.axis) {
        Ok(stride) => stride,
        Err(error) => {
            return Err(error);
        },
    };
    if stride > 1 {
        return Ok(max_len(real_len, complex_len));
    }
    let complex_size: usize = 2 * scalar_bytes;
    let real_bytes: usize = match real_len.checked_mul(scalar_bytes) {
        Some(bytes) => bytes,
        None => {
            return Err(FftError::PreparationFailed);
        },
    };
    let rounded: usize = match real_bytes.checked_add(complex_size - 1) {
        Some(rounded) => rounded / complex_size,
        None => {
            return Err(FftError::PreparationFailed);
        },
    };
    proof {
        if scalar_bytes == 4 {
            assert((4 * real_len + 7) / 8 == (real_len + 1) / 2);
        } else {
            assert((8 * real_len + 15) / 16 == (real_len + 1) / 2);
        }
    }
    Ok(max_len(rounded, complex_len))
}

/// Boundary lines of this rank over all extra elements, if they fill the local block.
pub open spec fn boundary_rows(local_len: int, line_len: int, extra: int) -> Option<int> {
    if local_len % line_len != 0 || (local_len / line_len) * extra > usize::MAX {
        None
    } else {
        Some((local_len / line_len) * extra)
    }
}

/// Returns the boundary lines of this rank over all extra elements.
pub fn boundary_row_count(local_len: usize, line_len: usize, extra: usize) -> (result: Result<
    usize,
    FftError,
>)
    requires
        line_len > 0,
    ensures
        match boundary_rows(local_len as int, line_len as int, extra as int) {
            Some(rows) => result is Ok && result->Ok_0 == rows,
            None => result == Err::<usize, FftError>(FftError::PreparationFailed),
        },
{
    if local_len % line_len != 0 {
        return Err(FftError::PreparationFailed);
    }
    match (local_len / line_len).checked_mul(extra) {
        Some(rows) => Ok(rows),
        None => Err(FftError::PreparationFailed),
    }
}

/// How strided boundary lines lie in the shared allocation.
#[derive(Clone, Copy, Debug, PartialEq, Eq, Structural)]
pub struct StridedPhase {
    /// Lines.
    pub rows: usize,
    /// Blocks of interleaved lines.
    pub groups: usize,
    /// Real elements of all lines.
    pub real_span: usize,
    /// Complex elements of all lines.
    pub complex_span: usize,
}

/// How `rows` strided boundary lines lie in a storage of the given lengths, if they fit.
pub open spec fn strided_phase(
    rows: int,
    stride: int,
    real_len: int,
    complex_len: int,
    real_storage: int,
    complex_storage: int,
) -> Option<StridedPhase> {
    if rows == 0 {
        Some(StridedPhase { rows: 0, groups: 0, real_span: 0, complex_span: 0 })
    } else if rows % stride != 0 || (rows / stride) * real_len * stride > real_storage || (rows
        / stride) * complex_len * stride > complex_storage {
        None
    } else {
        Some(
            StridedPhase {
                rows: rows as usize,
                groups: (rows / stride) as usize,
                real_span: ((rows / stride) * real_len * stride) as usize,
                complex_span: ((rows / stride) * complex_len * stride) as usize,
            },
        )
    }
}

/// Product of three lengths.
pub fn checked_span(groups: usize, len: usize, stride: usize) -> (span: Option<usize>)
    requires
        stride > 0,
    ensures
        match span {
            Some(value) => value == groups * len * stride,
            None => groups * len * stride > usize::MAX,
        },
{
    match groups.checked_mul(len) {
        Some(rows) => rows.checked_mul(stride),
        None => {
            assert(groups * len * stride >= groups * len) by (nonlinear_arith)
                requires
                    stride >= 1,
            ;
            None
        },
    }
}

/// What the strided phase of a plan looks like: an error, nothing where the lines are
/// contiguous, or the spans of its lines.
pub open spec fn strided_phase_of<const N: usize, const M: usize>(
    stages: Seq<Stage<N, M>>,
    boundary: Option<usize>,
    plan: LocalR2cPlan,
    extra: int,
    scalar_bytes: int,
) -> Result<Option<StridedPhase>, FftError> {
    match boundary {
        None => Err(FftError::PreparationFailed),
        Some(index) => {
            let stage = stages[index as int];
            match stage.input.stride_along(stage.axis as int) {
                None => Err(FftError::PreparationFailed),
                Some(stride) => if stride <= 1 {
                    Ok(None)
                } else {
                    match boundary_rows(
                        stage.input.local_len as int,
                        plan.real_len as int,
                        extra,
                    ) {
                        None => Err(FftError::PreparationFailed),
                        Some(rows) => if rows == 0 {
                            Ok(Some(StridedPhase { rows: 0, groups: 0, real_span: 0, complex_span: 0 }))
                        } else {
                            match storage_needs(stages, boundary, extra, scalar_bytes) {
                                None => Err(FftError::PreparationFailed),
                                Some(needs) => match strided_phase(
                                    rows,
                                    stride as int,
                                    plan.real_len as int,
                                    plan.complex_len as int,
                                    needs.real_len as int,
                                    needs.complex_len as int,
                                ) {
                                    None => Err(FftError::PreparationFailed),
                                    Some(phase) => Ok(Some(phase)),
                                },
                            }
                        },
                    }
                },
            }
        },
    }
}

/// Returns how the strided boundary lines of a plan lie in its shared allocation.
pub fn strided_phase_shape<const N: usize, const M: usize>(
    stages: &Vec<Stage<N, M>>,
    boundary: Option<usize>,
    plan: &LocalR2cPlan,
    extra: usize,
    scalar_bytes: usize,
) -> (result: Result<Option<StridedPhase>, FftError>)
    requires
        stages_wf(stages@),
        boundary is Some ==> boundary->0 < stages@.len(),
        scalar_bytes == 4 || scalar_bytes == 8,
        plan.real_len > 0,
    ensures
        result == strided_phase_of(stages@, boundary, *plan, extra as int, scalar_bytes as int),
{
    let index: usize = match boundary {
        Some(index) => index,
        None => {
            return Err(FftError::PreparationFailed);
        },
    };
    let stride: usize = match memory_stride(&stages[index].input, stages[index].axis) {
        Ok(stride) => stride,
        Err(error) => {
            return Err(error);
        },
    };
    if stride <= 1 {
        return Ok(None);
    }
    let rows: usize = match boundary_row_count(stages[index].input.local_len, plan.real_len, extra) {
        Ok(rows) => rows,
        Err(error) => {
            return Err(error);
        },
    };
    if rows == 0 {
        return Ok(Some(StridedPhase { rows: 0, groups: 0, real_span: 0, complex_span: 0 }));
    }
    if rows % stride != 0 {
        return Err(FftError::PreparationFailed);
    }
    let groups: usize = rows / stride;
    let real_span: usize = match checked_span(groups, plan.real_len, stride) {
        Some(span) => span,
        None => {
            return Err(FftError::PreparationFailed);
        },
    };
    let complex_span: usize = match checked_span(groups, plan.complex_len, stride) {
        Some(span) => span,
        None => {
            return Err(FftError::PreparationFailed);
        },
    };
    let needs: StorageNeeds = match in_place_storage_requirements(
        stages,
        boundary,
        extra,
        scalar_bytes,
    ) {
        Ok(needs) => needs,
        Err(error) => {
            return Err(error);
        },
    };
    if real_span > needs.real_len || complex_span > needs.complex_len {
        return Err(FftError::PreparationFailed);
    }
    Ok(Some(StridedPhase { rows, groups, real_span, complex_span }))
}

/// A vector of `capacity` elements of `source_size` bytes can become one of elements of
/// `target_size` bytes and holds `required_bytes`.
pub open spec fn recast_fits(
    source_size: int,
    source_align: int,
    target_size: int,
    target_align: int,
    capacity: int,
    required_bytes: int,
) -> bool {
    &&& source_size > 0
    &&& target_size > 0
    &&& source_align == target_align
    &&& capacity * source_size <= isize::MAX
    &&& required_bytes <= capacity * source_size
    &&& (capacity * source_size) % target_size == 0
}

/// Checks that an allocation of elements `T` can be recast to elements `U`.
pub fn validate_recast_capacity<T, U>(capacity: usize, required_bytes: usize) -> (result: Result<
    (),
    FftError,
>)
    ensures
        result is Ok <==> recast_fits(
            size_of::<T>() as int,
            align_of::<T>() as int,
            size_of::<U>() as int,
            align_of::<U>() as int,
            capacity as int,
            required_bytes as int,
        ),
        result is Err ==> result->Err_0 == FftError::StorageLayoutMismatch,
{
    let source_size: usize = core::mem::size_of::<T>();
    let target_size: usize = core::mem::size_of::<U>();
    if source_size == 0 || target_size == 0 || core::mem::align_of::<T>()
        != core::mem::align_of::<U>() {
        return Err(FftError::StorageLayoutMismatch);
    }
    match capacity.checked_mul(source_size) {
        Some(bytes) => {
            if bytes > isize::MAX as usize || bytes < required_bytes || bytes % target_size != 0 {
                return Err(FftError::StorageLayoutMismatch);
            }
            Ok(())
        },
        None => Err(FftError::StorageLayoutMismatch),
    }
}

/// An allocation of `capacity` scalars can become one of pairs and holds `required_bytes`.
pub open spec fn pairs_fit<R: FftReal>(capacity: int, required_bytes: int) -> bool {
    recast_fits(
        R::bytes() as int,
        align_of::<R>() as int,
        2 * R::bytes() as int,
        align_of::<Complex<R>>() as int,
        capacity,
        required_bytes,
    )
}

/// An allocation of `capacity` pairs can become one of scalars and holds `required_bytes`.
pub open spec fn scalars_fit<R: FftReal>(capacity: int, required_bytes: int) -> bool {
    recast_fits(
        2 * R::bytes() as int,
        align_of::<Complex<R>>() as int,
        R::bytes() as int,
        align_of::<R>() as int,
        capacity,
        required_bytes,
    )
}

/// Checks that an allocation of scalars can be recast to pairs.
pub fn validate_pairs_fit<R: FftReal>(capacity: usize, required_bytes: usize) -> (result: Result<
    (),
    FftError,
>)
    ensures
        result is Ok <==> pairs_fit::<R>(capacity as int, required_bytes as int),
        result is Err ==> result->Err_0 == FftError::StorageLayoutMismatch,
{
    let pair: usize = pair_size::<R>();
    proof {
        R::lemma_bytes();
        assert(pair == 2 * R::bytes());
    }
    validate_recast_capacity::<R, Complex<R>>(capacity, required_bytes)
}

/// Checks that an allocation of pairs can be recast to scalars.
pub fn validate_scalars_fit<R: FftReal>(capacity: usize, required_bytes: usize) -> (result: Result<
    (),
    FftError,
>)
    ensures
        result is Ok <==> scalars_fit::<R>(capacity as int, required_bytes as int),
        result is Err ==> result->Err_0 == FftError::StorageLayoutMismatch,
{
    let pair: usize = pair_size::<R>();
    proof {
        R::lemma_bytes();
        assert(pair == 2 * R::bytes());
    }
    validate_recast_capacity::<Complex<R>, R>(capacity, required_bytes)
}

/// Checks that the allocation of a mixed plan can be recast from elements `T` to elements `U`.
pub fn validate_mixed_recast_capacity<T, U>(capacity: usize, required_bytes: usize) -> (result:
    Result<(), MixedError>)
    ensures
        result is Ok <==> recast_fits(
            size_of::<T>() as int,
            align_of::<T>() as int,
            size_of::<U>() as int,
            align_of::<U>() as int,
            capacity as int,
            required_bytes as int,
        ),
        result is Err ==> result->Err_0 == MixedError::Fft(FftError::StorageLayoutMismatch),
{
    match validate_recast_capacity::<T, U>(capacity, required_bytes) {
        Ok(done) => Ok(done),
        Err(error) => Err(MixedError::Fft(error)),
    }
}

} // verus!
