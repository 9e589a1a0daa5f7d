//! The real-to-complex handoff of a homogeneous plan, in one allocation.

use vstd::arithmetic::div_mod::lemma_fundamental_div_mod;
use vstd::arithmetic::div_mod::lemma_small_mod;
use vstd::prelude::*;

use crate::array::capacity_of;
use crate::array::cut;
use crate::array::registrable;
use crate::array::registration_error;
use crate::array::resize_filled;
use crate::array::resized;
use crate::array::ArrayParts;
use crate::array::ManyPencilArray;
use crate::error::ArrayError;
use crate::error::FftError;
use crate::error::LocalR2cError;
use crate::error::R2cError;
use crate::handoff::convert_recast_forward;
use crate::handoff::convert_recast_reverse;
use crate::handoff::fails_before_recast;
use crate::handoff::lanes;
use crate::handoff::lemma_fails_transfer;
use crate::handoff::lemma_forward_transfer;
use crate::handoff::lemma_reverse_transfer;
use crate::handoff::recast_forward_error;
use crate::handoff::recast_reverse_error;
use crate::handoff::Boundary;
use crate::handoff::HalfComplexStorage;
use crate::handoff::LineBuffers;
use crate::handoff::ReverseFailure;
use crate::handoff::SharedStorage;
use crate::layout::memory_stride;
use crate::layout::ExtraShape;
use crate::layout::Pencil;
use crate::lines::line_kernel;
use crate::lines::rejects;
use crate::local::LocalR2cPlan;
use crate::recast::forward_converted;
use crate::recast::reverse_converted;
use crate::recast::some_line_fails;
use crate::registry::find_layout;
use crate::registry::has_layout;
use crate::scalar::flatten;
use crate::scalar::Complex;
use crate::scalar::FftReal;
use crate::shared::real_side;
use crate::shared::complex_side;
use crate::storage::boundary_row_count;
use crate::storage::boundary_rows;
use crate::storage::promoted_complex_len;
use crate::storage::promoted_len;
use crate::sweep::SweepError;

verus! {

/// The lengths of the two sides and the other fields that a handoff keeps.
pub open spec fn same_lens<R, const N: usize, const M: usize>(
    before: SharedStorage<R, N, M>,
    after: SharedStorage<R, N, M>,
) -> bool {
    &&& after.real_storage_len == before.real_storage_len
    &&& after.complex_storage_len == before.complex_storage_len
    &&& after.storage_bytes == before.storage_bytes
}

/// The whole allocation is still owned.
pub open spec fn keeps_allocation<R, const N: usize, const M: usize>(
    after: SharedStorage<R, N, M>,
) -> bool {
    after.storage is Some
}

/// What a completed handoff to the complex side leaves: the complex registry is active at
/// `active`, the real registry waits, and every boundary line is converted, provided that the
/// lines fit the two sides.
pub open spec fn forward_handed<R, E, F: Fn(&[R], usize) -> Result<Vec<Complex<R>>, E>, const N: usize, const M: usize>(
    kernel: F,
    plan: LocalR2cPlan,
    rows: int,
    stride: int,
    active: int,
    before: SharedStorage<R, N, M>,
    after: SharedStorage<R, N, M>,
) -> bool {
    match (before.storage, after.storage) {
        (Some(HalfComplexStorage::Real(source)), Some(HalfComplexStorage::Complex(target))) => {
            &&& target.wf()
            &&& target.active == Some(active as usize)
            &&& before.complex_pencils == Some(target.pencils)
            &&& after.real_pencils == Some(source.pencils)
            &&& after.complex_pencils is None
            &&& target.storage@.len() <= before.complex_storage_len
            &&& (before.real_storage_len == source.storage@.len() && rows * plan.real_len
                <= source.storage@.len() && rows * plan.complex_len <= target.storage@.len())
                ==> forward_converted::<R, E, F>(
                kernel,
                source.storage@,
                target.storage@,
                rows / lanes(stride),
                plan.real_len as nat,
                plan.complex_len as nat,
                lanes(stride),
            )
        },
        _ => false,
    }
}

/// What a completed handoff to the real side leaves: the real registry is active at `active`,
/// the complex registry waits, and every boundary line is converted, provided that the lines fit
/// the two sides.
pub open spec fn reverse_handed<R, E, F: Fn(&[Complex<R>], usize) -> Result<Vec<R>, E>, const N: usize, const M: usize>(
    kernel: F,
    plan: LocalR2cPlan,
    rows: int,
    stride: int,
    active: int,
    before: SharedStorage<R, N, M>,
    after: SharedStorage<R, N, M>,
) -> bool {
    match (before.storage, after.storage) {
        (Some(HalfComplexStorage::Complex(source)), Some(HalfComplexStorage::Real(target))) => {
            &&& target.wf()
            &&& target.active == Some(active as usize)
            &&& before.real_pencils == Some(target.pencils)
            &&& after.complex_pencils == Some(source.pencils)
            &&& after.real_pencils is None
            &&& target.storage@.len() <= before.real_storage_len
            &&& (before.complex_storage_len == source.storage@.len() && rows * plan.complex_len
                <= source.storage@.len() && rows * plan.real_len <= target.storage@.len())
                ==> reverse_converted::<R, E, F>(
                kernel,
                source.storage@,
                target.storage@,
                rows / lanes(stride),
                plan.complex_len as nat,
                plan.real_len as nat,
                lanes(stride),
            )
        },
        _ => false,
    }
}

/// The kernel rejected a line of the real side, provided that the lines fit it.
pub open spec fn forward_rejected<R, E, F: Fn(&[R], usize) -> Result<Vec<Complex<R>>, E>, const N: usize, const M: usize>(
    kernel: F,
    plan: LocalR2cPlan,
    rows: int,
    stride: int,
    before: SharedStorage<R, N, M>,
    error: E,
) -> bool {
    &&& rejects::<R, Complex<R>, E, F>(kernel, error)
    &&& before.storage matches Some(HalfComplexStorage::Real(source)) && ((
    before.real_storage_len == source.storage@.len() && rows * plan.real_len
        <= source.storage@.len()) ==> some_line_fails::<R, Complex<R>, E, F>(
        kernel,
        source.storage@,
        rows / lanes(stride),
        plan.real_len as nat,
        plan.complex_len as int,
        lanes(stride),
        error,
    ))
}

/// The kernel rejected a line of the complex side, provided that the lines fit it.
pub open spec fn reverse_rejected<R, E, F: Fn(&[Complex<R>], usize) -> Result<Vec<R>, E>, const N: usize, const M: usize>(
    kernel: F,
    plan: LocalR2cPlan,
    rows: int,
    stride: int,
    before: SharedStorage<R, N, M>,
    error: E,
) -> bool {
    &&& rejects::<Complex<R>, R, E, F>(kernel, error)
    &&& before.storage matches Some(HalfComplexStorage::Complex(source)) && ((
    before.complex_storage_len == source.storage@.len() && rows * plan.complex_len
        <= source.storage@.len()) ==> some_line_fails::<Complex<R>, R, E, F>(
        kernel,
        source.storage@,
        rows / lanes(stride),
        plan.complex_len as nat,
        plan.real_len as int,
        lanes(stride),
        error,
    ))
}

/// Complex values that the allocation must hold during a handoff, if they can be counted and
/// addressed.
pub open spec fn handoff_len<R: FftReal, const N: usize, const M: usize>(
    boundary: Boundary<N, M>,
    shared: SharedStorage<R, N, M>,
) -> Option<int> {
    match promoted_len(
        boundary.real_stride(),
        shared.real_storage_len as int,
        shared.complex_storage_len as int,
        R::bytes() as int,
    ) {
        None => None,
        Some(len) => if len * (2 * R::bytes()) > usize::MAX {
            None
        } else {
            Some(len)
        },
    }
}

/// What keeps a handoff to the complex side from taking the allocation.
pub open spec fn forward_refused<R: FftReal, const N: usize, const M: usize>(
    boundary: Boundary<N, M>,
    shared: SharedStorage<R, N, M>,
) -> Option<FftError> {
    if boundary_rows(
        boundary.stage.input.local_len as int,
        boundary.plan.real_len as int,
        boundary.extra as int,
    ) is None || handoff_len(boundary, shared) is None {
        Some(FftError::PreparationFailed)
    } else if shared.complex_pencils is None {
        Some(FftError::StorageLayoutMismatch)
    } else {
        match shared.storage {
            Some(HalfComplexStorage::Real(source)) => if source.active is None {
                Some(FftError::Array(ArrayError::Poisoned))
            } else {
                None
            },
            _ => Some(FftError::StorageLayoutMismatch),
        }
    }
}

/// What a refused handoff to the complex side leaves: an allocation that is not the real side is
/// given up, and a real side without an active layout counts as poisoned.
pub open spec fn forward_left<R: FftReal, const N: usize, const M: usize>(
    unprepared: bool,
    before: SharedStorage<R, N, M>,
    after: SharedStorage<R, N, M>,
) -> bool {
    &&& after.real_pencils == before.real_pencils
    &&& after.complex_pencils == before.complex_pencils
    &&& if unprepared {
        after.storage == before.storage
    } else {
        match before.storage {
            Some(HalfComplexStorage::Real(source)) => after.storage == Some(
                HalfComplexStorage::<R, N, M>::PoisonedReal(source.storage),
            ),
            _ => after.storage is None,
        }
    }
}

/// What a refused handoff to the real side leaves: an allocation that is not the complex side is
/// given up, and a complex side without an active layout counts as poisoned.
pub open spec fn reverse_left<R: FftReal, const N: usize, const M: usize>(
    unprepared: bool,
    before: SharedStorage<R, N, M>,
    after: SharedStorage<R, N, M>,
) -> bool {
    &&& after.real_pencils == before.real_pencils
    &&& after.complex_pencils == before.complex_pencils
    &&& if unprepared {
        after.storage == before.storage
    } else {
        match before.storage {
            Some(HalfComplexStorage::Complex(source)) => after.storage == Some(
                HalfComplexStorage::<R, N, M>::PoisonedComplex(source.storage),
            ),
            _ => after.storage is None,
        }
    }
}

/// The two extra shapes are the same.
pub open spec fn same_extra(left: ExtraShape, right: ExtraShape) -> bool {
    left.dimensions@ == right.dimensions@ && left.element_count == right.element_count
}

/// What registering layouts for a real storage, cut to the side's length, comes to: the real side,
/// or a poisoned one and the reason.
pub open spec fn real_installed<R, const N: usize, const M: usize>(
    pencils: Vec<Pencil<N, M>>,
    active: usize,
    extra_shape: ExtraShape,
    storage: Seq<R>,
    after: SharedStorage<R, N, M>,
    error: Option<ArrayError>,
) -> bool {
    let kept = cut(storage, after.real_storage_len as nat);
    if registrable(
        pencils@,
        active as int,
        extra_shape.element_count as int,
        kept.len() as int,
    ) {
        &&& error is None
        &&& after.storage matches Some(HalfComplexStorage::Real(target)) && {
            &&& target.wf()
            &&& target.pencils == pencils
            &&& target.active == Some(active)
            &&& same_extra(target.extra_shape, extra_shape)
            &&& target.storage@ == kept
        }
    } else {
        &&& error == Some(
            registration_error(
                pencils@,
                active as int,
                extra_shape.element_count as int,
                kept.len() as int,
            ),
        )
        &&& after.storage matches Some(HalfComplexStorage::PoisonedReal(same)) && same@ == kept
    }
}

/// What registering layouts for a complex storage, cut to the side's length, comes to: the complex
/// side, or a poisoned one and the reason.
pub open spec fn complex_installed<R, const N: usize, const M: usize>(
    pencils: Vec<Pencil<N, M>>,
    active: usize,
    extra_shape: ExtraShape,
    storage: Seq<Complex<R>>,
    after: SharedStorage<R, N, M>,
    error: Option<ArrayError>,
) -> bool {
    let kept = cut(storage, after.complex_storage_len as nat);
    if registrable(
        pencils@,
        active as int,
        extra_shape.element_count as int,
        kept.len() as int,
    ) {
        &&& error is None
        &&& after.storage matches Some(HalfComplexStorage::Complex(target)) && {
            &&& target.wf()
            &&& target.pencils == pencils
            &&& target.active == Some(active)
            &&& same_extra(target.extra_shape, extra_shape)
            &&& target.storage@ == kept
        }
    } else {
        &&& error == Some(
            registration_error(
                pencils@,
                active as int,
                extra_shape.element_count as int,
                kept.len() as int,
            ),
        )
        &&& after.storage matches Some(HalfComplexStorage::PoisonedComplex(same)) && same@ == kept
    }
}

/// The error of a registration comes before the reason for it.
pub open spec fn registered_outcome(error: Option<ArrayError>, cause: R2cError) -> R2cError {
    match error {
        Some(error) => R2cError::Fft(FftError::Array(error)),
        None => cause,
    }
}

/// Cuts a real storage to its side's length and registers the layouts for it.
fn install_real_storage<R: FftReal, const N: usize, const M: usize>(
    shared: &mut SharedStorage<R, N, M>,
    pencils: Vec<Pencil<N, M>>,
    extra_shape: ExtraShape,
    storage: Vec<R>,
    active: usize,
) -> (result: Result<(), FftError>)
    ensures
        same_lens(*old(shared), *final(shared)),
        final(shared).real_pencils == old(shared).real_pencils,
        final(shared).complex_pencils == old(shared).complex_pencils,
        keeps_allocation(*final(shared)),
        real_installed(
            pencils,
            active,
            extra_shape,
            storage@,
            *final(shared),
            match result {
                Ok(_) => None,
                Err(error) => Some(error->Array_0),
            },
        ),
        result matches Err(error) ==> error is Array,
{
    let mut kept: Vec<R> = storage;
    kept.truncate(shared.real_storage_len);
    assert(kept@ =~= cut(storage@, shared.real_storage_len as nat));
    match ManyPencilArray::from_vec_preserving(pencils, active, extra_shape, kept) {
        Ok(array) => {
            shared.storage = Some(HalfComplexStorage::Real(array));
            Ok(())
        },
        Err((error, same)) => {
            shared.storage = Some(HalfComplexStorage::PoisonedReal(same));
            Err(FftError::Array(error))
        },
    }
}

/// Cuts a complex storage to its side's length and registers the layouts for it.
fn install_complex_storage<R: FftReal, const N: usize, const M: usize>(
    shared: &mut SharedStorage<R, N, M>,
    pencils: Vec<Pencil<N, M>>,
    extra_shape: ExtraShape,
    storage: Vec<Complex<R>>,
    active: usize,
) -> (result: Result<(), FftError>)
    ensures
        same_lens(*old(shared), *final(shared)),
        final(shared).real_pencils == old(shared).real_pencils,
        final(shared).complex_pencils == old(shared).complex_pencils,
        keeps_allocation(*final(shared)),
        complex_installed(
            pencils,
            active,
            extra_shape,
            storage@,
            *final(shared),
            match result {
                Ok(_) => None,
                Err(error) => Some(error->Array_0),
            },
        ),
        result matches Err(error) ==> error is Array,
{
    let mut kept: Vec<Complex<R>> = storage;
    kept.truncate(shared.complex_storage_len);
    assert(kept@ =~= cut(storage@, shared.complex_storage_len as nat));
    match ManyPencilArray::from_vec_preserving(pencils, active, extra_shape, kept) {
        Ok(array) => {
            shared.storage = Some(HalfComplexStorage::Complex(array));
            Ok(())
        },
        Err((error, same)) => {
            shared.storage = Some(HalfComplexStorage::PoisonedComplex(same));
            Err(FftError::Array(error))
        },
    }
}

/// Lines of a handoff fill whole blocks.
proof fn lemma_rows_in_lanes(rows: int, stride: int, len: int)
    requires
        0 <= rows,
        stride > 1 ==> rows % stride == 0,
    ensures
        (rows / lanes(stride)) * len * lanes(stride) == rows * len,
{
    let count = lanes(stride);
    let groups = rows / count;
    lemma_fundamental_div_mod(rows, count);
    assert(groups * len * count == rows * len) by (nonlinear_arith)
        requires
            rows == count * groups,
    ;
}

/// A conversion in the recast allocation is one of the registered arrays on both sides.
pub proof fn lemma_forward_landed<R, E, F: Fn(&[R], usize) -> Result<Vec<Complex<R>>, E>>(
    kernel: F,
    source: Seq<R>,
    resized: Seq<R>,
    converted: Seq<Complex<R>>,
    target: Seq<Complex<R>>,
    plan: LocalR2cPlan,
    rows: int,
    stride: int,
)
    requires
        0 <= rows,
        stride > 1 ==> rows % stride == 0,
        source.len() <= resized.len(),
        forall|i: int| 0 <= i < source.len() ==> #[trigger] resized[i] == source[i],
        target.len() <= converted.len(),
        target == converted.take(target.len() as int),
        rows * plan.real_len <= source.len(),
        rows * plan.complex_len <= target.len(),
        forward_converted::<R, E, F>(
            kernel,
            resized,
            converted,
            rows / lanes(stride),
            plan.real_len as nat,
            plan.complex_len as nat,
            lanes(stride),
        ),
    ensures
        forward_converted::<R, E, F>(
            kernel,
            source,
            target,
            rows / lanes(stride),
            plan.real_len as nat,
            plan.complex_len as nat,
            lanes(stride),
        ),
{
    lemma_rows_in_lanes(rows, stride, plan.real_len as int);
    lemma_rows_in_lanes(rows, stride, plan.complex_len as int);
    assert forall|i: int| 0 <= i < rows * plan.real_len implies #[trigger] source[i] == resized[i] by {
        assert(resized[i] == source[i]);
    }
    assert forall|i: int| 0 <= i < rows * plan.complex_len implies #[trigger] target[i]
        == converted[i] by {}
    lemma_forward_transfer::<R, E, F>(
        kernel,
        resized,
        source,
        converted,
        target,
        rows / lanes(stride),
        plan.real_len as nat,
        plan.complex_len as nat,
        lanes(stride),
    );
}

/// A conversion in the recast allocation is one of the registered arrays on both sides.
pub proof fn lemma_reverse_landed<R, E, F: Fn(&[Complex<R>], usize) -> Result<Vec<R>, E>>(
    kernel: F,
    source: Seq<Complex<R>>,
    resized: Seq<Complex<R>>,
    converted: Seq<R>,
    target: Seq<R>,
    plan: LocalR2cPlan,
    rows: int,
    stride: int,
)
    requires
        0 <= rows,
        stride > 1 ==> rows % stride == 0,
        source.len() <= resized.len(),
        forall|i: int| 0 <= i < source.len() ==> #[trigger] resized[i] == source[i],
        target.len() <= converted.len(),
        target == converted.take(target.len() as int),
        rows * plan.complex_len <= source.len(),
        rows * plan.real_len <= target.len(),
        reverse_converted::<R, E, F>(
            kernel,
            resized,
            converted,
            rows / lanes(stride),
            plan.complex_len as nat,
            plan.real_len as nat,
            lanes(stride),
        ),
    ensures
        reverse_converted::<R, E, F>(
            kernel,
            source,
            target,
            rows / lanes(stride),
            plan.complex_len as nat,
            plan.real_len as nat,
            lanes(stride),
        ),
{
    lemma_rows_in_lanes(rows, stride, plan.real_len as int);
    lemma_rows_in_lanes(rows, stride, plan.complex_len as int);
    assert forall|i: int| 0 <= i < rows * plan.complex_len implies #[trigger] source[i]
        == resized[i] by {
        assert(resized[i] == source[i]);
    }
    assert forall|i: int| 0 <= i < rows * plan.real_len implies #[trigger] target[i]
        == converted[i] by {}
    lemma_reverse_transfer::<R, E, F>(
        kernel,
        resized,
        source,
        converted,
        target,
        rows / lanes(stride),
        plan.complex_len as nat,
        plan.real_len as nat,
        lanes(stride),
    );
}

/// Boundary lines of a homogeneous plan on this rank.
pub open spec fn handoff_rows<const N: usize, const M: usize>(boundary: Boundary<N, M>) -> int {
    boundary_rows(
        boundary.stage.input.local_len as int,
        boundary.plan.real_len as int,
        boundary.extra as int,
    )->0
}

/// What keeps a recast allocation from being converted to the complex side.
pub open spec fn forward_settle_error<const N: usize, const M: usize>(
    boundary: Boundary<N, M>,
    real_count: int,
    storage_len: int,
    buffers: LineBuffers,
) -> Option<FftError> {
    let stride = boundary.real_stride()->0 as int;
    if stride <= 1 && buffers.complex_source_line < boundary.plan.real_len - boundary.plan.real_len
        / 2 {
        Some(FftError::StorageLayoutMismatch)
    } else {
        recast_forward_error(
            handoff_rows(boundary),
            stride,
            boundary.plan,
            real_count,
            storage_len,
            buffers,
            true,
        )
    }
}

/// The layouts and the extra dimensions of an array whose allocation was taken.
#[derive(Debug)]
pub struct Detached<const N: usize, const M: usize> {
    /// The layouts of the side that is given up.
    pub source: Vec<Pencil<N, M>>,
    /// The layouts of the side that is taken on.
    pub destination: Vec<Pencil<N, M>>,
    /// The layout of the destination that becomes active.
    pub active: usize,
    /// The extra dimensions.
    pub extra_shape: ExtraShape,
}

/// What a handoff to the complex side comes to behind the recast of its allocation. Where the
/// recast failed, the reals are kept and count as poisoned. Otherwise the complex side is
/// registered whether or not the lines could be converted, and a registration that fails comes
/// first.
pub open spec fn forward_settled<R: FftReal, F: Fn(&[R], usize) -> Result<Vec<Complex<R>>, LocalR2cError>, const N: usize, const M: usize>(
    kernel: F,
    boundary: Boundary<N, M>,
    buffers: LineBuffers,
    detached: Detached<N, M>,
    recast: Result<Vec<Complex<R>>, Vec<R>>,
    after: SharedStorage<R, N, M>,
    result: Result<(), R2cError>,
) -> bool {
    &&& after.real_pencils == Some(detached.source)
    &&& match recast {
        Err(same) => {
            &&& after.storage == Some(HalfComplexStorage::<R, N, M>::PoisonedReal(same))
            &&& after.complex_pencils == Some(detached.destination)
            &&& result == Err::<(), R2cError>(R2cError::Fft(FftError::StorageLayoutMismatch))
        },
        Ok(lines) => {
            &&& after.complex_pencils is None
            &&& exists|converted: Seq<Complex<R>>, installed: Option<ArrayError>|
                {
                    &&& converted.len() == lines@.len()
                    &&& #[trigger] complex_installed(
                        detached.destination,
                        detached.active,
                        detached.extra_shape,
                        converted,
                        after,
                        installed,
                    )
                    &&& forward_verdict::<R, F, N, M>(
                        kernel,
                        boundary,
                        buffers,
                        after.real_storage_len as int,
                        lines@,
                        converted,
                        installed,
                        result,
                    )
                }
        },
    }
}

/// What is reported of the conversion of `lines` to `converted` and of the registration behind it.
pub open spec fn forward_verdict<R: FftReal, F: Fn(&[R], usize) -> Result<Vec<Complex<R>>, LocalR2cError>, const N: usize, const M: usize>(
    kernel: F,
    boundary: Boundary<N, M>,
    buffers: LineBuffers,
    real_count: int,
    lines: Seq<Complex<R>>,
    converted: Seq<Complex<R>>,
    installed: Option<ArrayError>,
    result: Result<(), R2cError>,
) -> bool {
    let rows = handoff_rows(boundary);
    let step = lanes(boundary.real_stride()->0 as int);
    match installed {
        Some(error) => result == Err::<(), R2cError>(R2cError::Fft(FftError::Array(error))),
        None => match forward_settle_error(
            boundary,
            real_count,
            lines.len() as int,
            buffers,
        ) {
            Some(error) => result == Err::<(), R2cError>(R2cError::Fft(error)),
            None => match result {
                Ok(_) => rows * boundary.plan.real_len <= real_count ==> forward_converted::<
                    R,
                    LocalR2cError,
                    F,
                >(
                    kernel,
                    flatten(lines),
                    converted,
                    rows / step,
                    boundary.plan.real_len as nat,
                    boundary.plan.complex_len as nat,
                    step,
                ),
                Err(R2cError::LocalR2c(error)) => {
                    &&& rejects::<R, Complex<R>, LocalR2cError, F>(kernel, error)
                    &&& rows * boundary.plan.real_len <= real_count ==> some_line_fails::<
                        R,
                        Complex<R>,
                        LocalR2cError,
                        F,
                    >(
                        kernel,
                        flatten(lines),
                        rows / step,
                        boundary.plan.real_len as nat,
                        boundary.plan.complex_len as int,
                        step,
                        error,
                    )
                },
                Err(_) => false,
            },
        },
    }
}

/// Finishes a handoff to the complex side, given what the recast of its allocation came to.
pub fn settle_forward<R: FftReal, F: Fn(&[R], usize) -> Result<Vec<Complex<R>>, LocalR2cError>, const N: usize, const M: usize>(
    kernel: &F,
    boundary: &Boundary<N, M>,
    buffers: &LineBuffers,
    detached: Detached<N, M>,
    recast: Result<Vec<Complex<R>>, Vec<R>>,
    shared: &mut SharedStorage<R, N, M>,
) -> (result: Result<(), R2cError>)
    requires
        boundary.wf(),
        boundary.real_stride() is Some,
        boundary_rows(
            boundary.stage.input.local_len as int,
            boundary.plan.real_len as int,
            boundary.extra as int,
        ) is Some,
        line_kernel::<R, Complex<R>, LocalR2cError, F>(*kernel),
        old(shared).complex_pencils is None,
    ensures
        same_lens(*old(shared), *final(shared)),
        forward_settled::<R, F, N, M>(
            *kernel,
            *boundary,
            *buffers,
            detached,
            recast,
            *final(shared),
            result,
        ),
{
    let rows: usize = match boundary_row_count(
        boundary.stage.input.local_len,
        boundary.plan.real_len,
        boundary.extra,
    ) {
        Ok(rows) => rows,
        Err(error) => {
            return Err(R2cError::Fft(error));
        },
    };
    let stride: usize = match memory_stride(&boundary.stage.input, boundary.stage.axis) {
        Ok(stride) => stride,
        Err(error) => {
            return Err(R2cError::Fft(error));
        },
    };
    let mut lines: Vec<Complex<R>> = match recast {
        Ok(lines) => lines,
        Err(same) => {
            shared.storage = Some(HalfComplexStorage::PoisonedReal(same));
            shared.real_pencils = Some(detached.source);
            shared.complex_pencils = Some(detached.destination);
            return Err(R2cError::Fft(FftError::StorageLayoutMismatch));
        },
    };
    proof {
        if stride > 1 && rows == 0 {
            lemma_small_mod(0, stride as nat);
        }
    }
    let conversion = if stride <= 1 && buffers.complex_source_line < boundary.plan.real_len
        - boundary.plan.real_len / 2 {
        Err(SweepError::Fft(FftError::StorageLayoutMismatch))
    } else {
        convert_recast_forward(
            kernel,
            &mut lines,
            &boundary.plan,
            rows,
            stride,
            shared.real_storage_len,
            buffers,
            true,
        )
    };
    let ghost converted = lines@;
    let installed = install_complex_storage(
        shared,
        detached.destination,
        detached.extra_shape,
        lines,
        detached.active,
    );
    shared.real_pencils = Some(detached.source);
    proof {
        assert(complex_installed(
            detached.destination,
            detached.active,
            detached.extra_shape,
            converted,
            *shared,
            match installed {
                Ok(_) => None,
                Err(error) => Some(error->Array_0),
            },
        ));
    }
    match installed {
        Ok(done) => match conversion {
            Ok(_) => Ok(done),
            Err(error) => Err(r2c_fault(error)),
        },
        Err(error) => Err(R2cError::Fft(error)),
    }
}

/// What an allocation that is too small for a handoff to the complex side comes to: the real side
/// is registered again, and a registration that fails comes first.
pub open spec fn forward_too_small<R: FftReal, const N: usize, const M: usize>(
    before: SharedStorage<R, N, M>,
    after: SharedStorage<R, N, M>,
    result: Result<(), R2cError>,
) -> bool {
    let source = real_side(before);
    &&& after.real_pencils == before.real_pencils
    &&& after.complex_pencils == before.complex_pencils
    &&& exists|installed: Option<ArrayError>|
        {
            &&& #[trigger] real_installed(
                source.pencils,
                source.active->0,
                source.extra_shape,
                source.storage@,
                after,
                installed,
            )
            &&& result == Err::<(), R2cError>(
                registered_outcome(installed, R2cError::Fft(FftError::StorageLayoutMismatch)),
            )
        }
}

/// What a recast of `values` to pairs can come to.
pub open spec fn recast_of<R>(values: Seq<R>, recast: Result<Vec<Complex<R>>, Vec<R>>) -> bool {
    match recast {
        Ok(pairs) => flatten(pairs@) == values,
        Err(same) => same@ == values,
    }
}

/// What a handoff to the complex side comes to if its allocation has the given capacity: it is too
/// small, or filled up as far as is needed and recast.
pub open spec fn forward_run<R: FftReal, F: Fn(&[R], usize) -> Result<Vec<Complex<R>>, LocalR2cError>, const N: usize, const M: usize>(
    kernel: F,
    boundary: Boundary<N, M>,
    buffers: LineBuffers,
    capacity: usize,
    before: SharedStorage<R, N, M>,
    after: SharedStorage<R, N, M>,
    result: Result<(), R2cError>,
) -> bool {
    let source = real_side(before);
    let needed = 2 * handoff_len(boundary, before)->0;
    &&& source.storage@.len() <= capacity
    &&& if capacity < needed {
        forward_too_small(before, after, result)
    } else {
        exists|recast: Result<Vec<Complex<R>>, Vec<R>>|
            {
                &&& recast_of(resized(source.storage@, needed as nat, R::zero_bits()), recast)
                &&& #[trigger] forward_settled::<R, F, N, M>(
                    kernel,
                    boundary,
                    buffers,
                    (Detached {
                        source: source.pencils,
                        destination: before.complex_pencils->0,
                        active: 0,
                        extra_shape: source.extra_shape,
                    }),
                    recast,
                    after,
                    result,
                )
            }
    }
}

/// What turning the real side of a shared allocation into the complex side comes to.
pub open spec fn real_handed_over<R: FftReal, F: Fn(&[R], usize) -> Result<Vec<Complex<R>>, LocalR2cError>, const N: usize, const M: usize>(
    kernel: F,
    boundary: Boundary<N, M>,
    buffers: LineBuffers,
    before: SharedStorage<R, N, M>,
    after: SharedStorage<R, N, M>,
    result: Result<(), R2cError>,
) -> bool {
    &&& same_lens(before, after)
    &&& match forward_refused(boundary, before) {
        Some(error) => result == Err::<(), R2cError>(R2cError::Fft(error)) && forward_left(
            error == FftError::PreparationFailed || before.complex_pencils is None,
            before,
            after,
        ),
        None => {
            &&& keeps_allocation(after)
            &&& result is Ok ==> forward_handed::<R, LocalR2cError, F, N, M>(
                kernel,
                boundary.plan,
                handoff_rows(boundary),
                boundary.real_stride()->0 as int,
                0,
                before,
                after,
            )
            &&& result matches Err(R2cError::LocalR2c(error)) ==> forward_rejected::<
                R,
                LocalR2cError,
                F,
                N,
                M,
            >(
                kernel,
                boundary.plan,
                handoff_rows(boundary),
                boundary.real_stride()->0 as int,
                before,
                error,
            )
            &&& exists|capacity: usize| #[trigger]
                forward_run::<R, F, N, M>(
                    kernel,
                    boundary,
                    buffers,
                    capacity,
                    before,
                    after,
                    result,
                )
        },
    }
}

/// Turns the real side of a shared allocation that has the given capacity into the complex side. It
/// is refused where it has too little room, and only there; the allocation stays owned.
pub fn convert_real_to_complex_in<R: FftReal, F: Fn(&[R], usize) -> Result<Vec<Complex<R>>, LocalR2cError>, const N: usize, const M: usize>(
    kernel: &F,
    boundary: &Boundary<N, M>,
    shared: &mut SharedStorage<R, N, M>,
    buffers: &LineBuffers,
    capacity: usize,
) -> (result: Result<(), R2cError>)
    requires
        boundary.wf(),
        line_kernel::<R, Complex<R>, LocalR2cError, F>(*kernel),
        old(shared).storage matches Some(HalfComplexStorage::Real(source)) ==> source.storage@.len()
            <= capacity,
    ensures
        real_handed_over::<R, F, N, M>(
            *kernel,
            *boundary,
            *buffers,
            *old(shared),
            *final(shared),
            result,
        ),
        forward_refused(*boundary, *old(shared)) is None ==> forward_run::<R, F, N, M>(
            *kernel,
            *boundary,
            *buffers,
            capacity,
            *old(shared),
            *final(shared),
            result,
        ),
{
    let rows: usize = match boundary_row_count(
        boundary.stage.input.local_len,
        boundary.plan.real_len,
        boundary.extra,
    ) {
        Ok(rows) => rows,
        Err(error) => {
            return Err(R2cError::Fft(error));
        },
    };
    let scalar_bytes: usize = R::scalar_bytes();
    let full_complex_len: usize = match promoted_complex_len(
        &boundary.stage,
        shared.real_storage_len,
        shared.complex_storage_len,
        scalar_bytes,
    ) {
        Ok(len) => len,
        Err(error) => {
            return Err(R2cError::Fft(error));
        },
    };
    match full_complex_len.checked_mul(2 * scalar_bytes) {
        Some(_) => {},
        None => {
            return Err(R2cError::Fft(FftError::PreparationFailed));
        },
    }
    proof {
        assert(2 * full_complex_len <= full_complex_len * (2 * scalar_bytes)) by (nonlinear_arith)
            requires
                scalar_bytes >= 1,
                full_complex_len >= 0,
        ;
    }
    let full_real_len: usize = 2 * full_complex_len;
    let stride: usize = match memory_stride(&boundary.stage.input, boundary.stage.axis) {
        Ok(stride) => stride,
        Err(error) => {
            return Err(R2cError::Fft(error));
        },
    };
    let destination: Vec<Pencil<N, M>> = match shared.complex_pencils.take() {
        Some(pencils) => pencils,
        None => {
            return Err(R2cError::Fft(FftError::StorageLayoutMismatch));
        },
    };
    let source: ManyPencilArray<R, N, M> = match shared.storage.take() {
        Some(HalfComplexStorage::Real(source)) => source,
        _ => {
            shared.complex_pencils = Some(destination);
            return Err(R2cError::Fft(FftError::StorageLayoutMismatch));
        },
    };
    let parts: ArrayParts<R, N, M> = match source.into_parts_preserving() {
        Ok(parts) => parts,
        Err((error, same)) => {
            shared.storage = Some(HalfComplexStorage::PoisonedReal(same.into_storage()));
            shared.complex_pencils = Some(destination);
            return Err(R2cError::Fft(FftError::Array(error)));
        },
    };
    let ghost packed = parts.storage@;
    if full_real_len > capacity {
        let kept = install_real_storage(
            shared,
            parts.pencils,
            parts.extra_shape,
            parts.storage,
            parts.active,
        );
        shared.complex_pencils = Some(destination);
        let ghost fault: Option<ArrayError> = match kept {
            Ok(_) => None,
            Err(error) => Some(error->Array_0),
        };
        let ghost given = real_side(*old(shared));
        assert(real_installed(
            given.pencils,
            given.active->0,
            given.extra_shape,
            given.storage@,
            *shared,
            fault,
        ));
        let result = match kept {
            Ok(_) => Err(R2cError::Fft(FftError::StorageLayoutMismatch)),
            Err(error) => Err(R2cError::Fft(error)),
        };
        assert(forward_run::<R, F, N, M>(
            *kernel,
            *boundary,
            *buffers,
            capacity,
            *old(shared),
            *shared,
            result,
        ));
        return result;
    }
    let mut storage: Vec<R> = parts.storage;
    resize_filled(&mut storage, full_real_len, R::zero());
    let ghost filled = storage@;
    let recast: Result<Vec<Complex<R>>, Vec<R>> = R::recast_to_pairs(storage);
    let detached: Detached<N, M> = Detached {
        source: parts.pencils,
        destination,
        active: 0,
        extra_shape: parts.extra_shape,
    };
    let result = settle_forward(kernel, boundary, buffers, detached, recast, shared);
    proof {
        assert(recast_of(filled, recast));
        assert(forward_run::<R, F, N, M>(
            *kernel,
            *boundary,
            *buffers,
            capacity,
            *old(shared),
            *shared,
            result,
        ));
        if recast is Ok {
            let lines = recast->Ok_0@;
            let real_count = old(shared).real_storage_len as int;
            assert(flatten(lines).len() == 2 * lines.len());
            let (converted, installed) = choose|
                converted: Seq<Complex<R>>,
                installed: Option<ArrayError>,
            |
                {
                    &&& converted.len() == lines.len()
                    &&& #[trigger] complex_installed(
                        detached.destination,
                        detached.active,
                        detached.extra_shape,
                        converted,
                        *shared,
                        installed,
                    )
                    &&& forward_verdict::<R, F, N, M>(
                        *kernel,
                        *boundary,
                        *buffers,
                        real_count,
                        lines,
                        converted,
                        installed,
                        result,
                    )
                };
            if stride > 1 && rows == 0 {
                lemma_small_mod(0, stride as nat);
            }
            if result is Ok {
                let target = shared.storage->0->Complex_0;
                if real_count == packed.len() && rows * boundary.plan.real_len <= packed.len() && rows
                    * boundary.plan.complex_len <= target.storage@.len() {
                    assert(target.storage@ =~= converted.take(target.storage@.len() as int));
                    lemma_forward_landed::<R, LocalR2cError, F>(
                        *kernel,
                        packed,
                        filled,
                        converted,
                        target.storage@,
                        boundary.plan,
                        rows as int,
                        stride as int,
                    );
                }
            } else if result->Err_0 is LocalR2c {
                if real_count == packed.len() && rows * boundary.plan.real_len <= packed.len() {
                    lemma_rows_in_lanes(rows as int, stride as int, boundary.plan.real_len as int);
                    lemma_fails_transfer::<R, Complex<R>, LocalR2cError, F>(
                        *kernel,
                        filled,
                        packed,
                        rows as int / lanes(stride as int),
                        boundary.plan.real_len as nat,
                        boundary.plan.complex_len as int,
                        lanes(stride as int),
                        result->Err_0->LocalR2c_0,
                    );
                }
            }
        }
    }
    result
}

/// Turns the real side of a shared allocation into the complex side. The capacity of the allocation
/// rests on the allocator; [`convert_real_to_complex_in`] says what follows for each one.
pub fn convert_real_to_complex<R: FftReal, F: Fn(&[R], usize) -> Result<Vec<Complex<R>>, LocalR2cError>, const N: usize, const M: usize>(
    kernel: &F,
    boundary: &Boundary<N, M>,
    shared: &mut SharedStorage<R, N, M>,
    buffers: &LineBuffers,
) -> (result: Result<(), R2cError>)
    requires
        boundary.wf(),
        line_kernel::<R, Complex<R>, LocalR2cError, F>(*kernel),
    ensures
        real_handed_over::<R, F, N, M>(
            *kernel,
            *boundary,
            *buffers,
            *old(shared),
            *final(shared),
            result,
        ),
{
    let capacity: usize = match &shared.storage {
        Some(HalfComplexStorage::Real(source)) => capacity_of(&source.storage),
        _ => 0,
    };
    convert_real_to_complex_in(kernel, boundary, shared, buffers, capacity)
}

/// `index` is the first layout of `pencils` that is the layout of `pencil`.
pub open spec fn first_layout<const N: usize, const M: usize>(
    pencils: Seq<Pencil<N, M>>,
    pencil: Pencil<N, M>,
    index: int,
) -> bool {
    &&& 0 <= index < pencils.len()
    &&& pencils[index].spec_same_layout(&pencil)
    &&& forall|i: int| 0 <= i < index ==> !(#[trigger] pencils[i]).spec_same_layout(&pencil)
}

/// What keeps a handoff to the real side from taking the allocation.
pub open spec fn reverse_refused<R: FftReal, const N: usize, const M: usize>(
    boundary: Boundary<N, M>,
    shared: SharedStorage<R, N, M>,
) -> Option<FftError> {
    if boundary_rows(
        boundary.stage.input.local_len as int,
        boundary.plan.real_len as int,
        boundary.extra as int,
    ) is None || promoted_len(
        boundary.real_stride(),
        shared.real_storage_len as int,
        shared.complex_storage_len as int,
        R::bytes() as int,
    ) is None || boundary.complex_stride() is None {
        Some(FftError::PreparationFailed)
    } else if shared.real_pencils is None || !has_layout(
        shared.real_pencils->0@,
        boundary.stage.input,
    ) {
        Some(FftError::StorageLayoutMismatch)
    } else {
        match shared.storage {
            Some(HalfComplexStorage::Complex(source)) => if source.active is None {
                Some(FftError::Array(ArrayError::Poisoned))
            } else {
                None
            },
            _ => Some(FftError::StorageLayoutMismatch),
        }
    }
}

/// Complex values cut to `len`, or filled up with zeros.
pub open spec fn filled_up<R: FftReal>(values: Seq<Complex<R>>, len: nat) -> Seq<Complex<R>> {
    resized(values, len, [R::zero_bits(), R::zero_bits()])
}

/// Complex values that the allocation must hold during a handoff to the real side.
pub open spec fn reverse_len<R: FftReal, const N: usize, const M: usize>(
    boundary: Boundary<N, M>,
    shared: SharedStorage<R, N, M>,
) -> int {
    promoted_len(
        boundary.real_stride(),
        shared.real_storage_len as int,
        shared.complex_storage_len as int,
        R::bytes() as int,
    )->0
}

/// Why the lines of a filled allocation could not be converted to the real side.
pub open spec fn reverse_cause<R: FftReal, E, F: Fn(&[Complex<R>], usize) -> Result<Vec<R>, E>>(
    kernel: F,
    rows: int,
    stride: int,
    plan: LocalR2cPlan,
    refusal: Option<FftError>,
    lines: Seq<Complex<R>>,
    cause: SweepError<E>,
) -> bool {
    match cause {
        SweepError::Fft(error) => refusal == Some(error),
        SweepError::Kernel(error) => some_line_fails::<Complex<R>, R, E, F>(
            kernel,
            lines,
            rows / lanes(stride),
            plan.complex_len as nat,
            plan.real_len as int,
            lanes(stride),
            error,
        ),
    }
}

/// What is reported of a conversion that failed.
pub open spec fn fault_of(cause: SweepError<LocalR2cError>) -> R2cError {
    match cause {
        SweepError::Fft(error) => R2cError::Fft(error),
        SweepError::Kernel(error) => R2cError::LocalR2c(error),
    }
}

/// The real side was taken on: its layouts are registered for `values`, and those of the complex
/// side wait.
pub open spec fn real_taken_on<R, const N: usize, const M: usize>(
    detached: Detached<N, M>,
    values: Seq<R>,
    after: SharedStorage<R, N, M>,
    installed: Option<ArrayError>,
) -> bool {
    &&& after.complex_pencils == Some(detached.source)
    &&& after.real_pencils is None
    &&& real_installed(
        detached.destination,
        detached.active,
        detached.extra_shape,
        values,
        after,
        installed,
    )
}

/// The complex side stays: its layouts are registered for `values` again, and those of the real
/// side wait.
pub open spec fn complex_kept<R, const N: usize, const M: usize>(
    detached: Detached<N, M>,
    given: usize,
    values: Seq<Complex<R>>,
    after: SharedStorage<R, N, M>,
    installed: Option<ArrayError>,
) -> bool {
    &&& after.real_pencils == Some(detached.destination)
    &&& complex_installed(
        detached.source,
        given,
        detached.extra_shape,
        values,
        after,
        installed,
    )
}

/// What a handoff to the real side comes to once its allocation is filled up. The side that the
/// values have reached is registered whether or not all lines could be converted, and a
/// registration that fails comes first.
pub open spec fn reverse_settled<R: FftReal, F: Fn(&[Complex<R>], usize) -> Result<Vec<R>, LocalR2cError>, const N: usize, const M: usize>(
    kernel: F,
    boundary: Boundary<N, M>,
    buffers: LineBuffers,
    detached: Detached<N, M>,
    given: usize,
    lines: Seq<Complex<R>>,
    after: SharedStorage<R, N, M>,
    result: Result<(), R2cError>,
) -> bool {
    let rows = handoff_rows(boundary);
    let stride = boundary.complex_stride()->0 as int;
    let plan = boundary.plan;
    let refusal = recast_reverse_error(
        rows,
        stride,
        plan,
        after.real_storage_len as int,
        lines.len() as int,
        buffers,
        true,
        true,
    );
    ||| exists|converted: Seq<R>, installed: Option<ArrayError>|
        {
            &&& converted.len() == 2 * lines.len()
            &&& #[trigger] real_taken_on(detached, converted, after, installed)
            &&& refusal is None
            &&& (stride > 1 ==> rows * plan.real_len <= after.real_storage_len)
                ==> reverse_converted::<R, LocalR2cError, F>(
                kernel,
                lines,
                converted,
                rows / lanes(stride),
                plan.complex_len as nat,
                plan.real_len as nat,
                lanes(stride),
            )
            &&& result == match installed {
                None => Ok::<(), R2cError>(()),
                Some(error) => Err(R2cError::Fft(FftError::Array(error))),
            }
        }
    ||| exists|left: Seq<R>, installed: Option<ArrayError>, cause: SweepError<LocalR2cError>|
        {
            &&& left.len() == 2 * lines.len()
            &&& #[trigger] real_taken_on(detached, left, after, installed)
            &&& #[trigger] reverse_cause::<R, LocalR2cError, F>(
                kernel,
                rows,
                stride,
                plan,
                refusal,
                lines,
                cause,
            )
            &&& !fails_before_recast(
                rows,
                stride,
                plan,
                lines.len() as int,
                buffers,
                true,
                cause,
            )
            &&& result == Err::<(), R2cError>(registered_outcome(installed, fault_of(cause)))
        }
    ||| exists|
        left: Seq<Complex<R>>,
        installed: Option<ArrayError>,
        cause: SweepError<LocalR2cError>,
    |
        {
            &&& left.len() == lines.len()
            &&& #[trigger] complex_kept(detached, given, left, after, installed)
            &&& #[trigger] reverse_cause::<R, LocalR2cError, F>(
                kernel,
                rows,
                stride,
                plan,
                refusal,
                lines,
                cause,
            )
            &&& fails_before_recast(rows, stride, plan, lines.len() as int, buffers, true, cause)
            &&& result == Err::<(), R2cError>(registered_outcome(installed, fault_of(cause)))
        }
}

/// Finishes a handoff to the real side, given its filled allocation; `given` is the complex layout
/// that was active.
pub fn settle_reverse<R: FftReal, F: Fn(&[Complex<R>], usize) -> Result<Vec<R>, LocalR2cError>, const N: usize, const M: usize>(
    kernel: &F,
    boundary: &Boundary<N, M>,
    buffers: &LineBuffers,
    detached: Detached<N, M>,
    given: usize,
    lines: Vec<Complex<R>>,
    shared: &mut SharedStorage<R, N, M>,
) -> (result: Result<(), R2cError>)
    requires
        boundary.wf(),
        boundary.complex_stride() is Some,
        boundary_rows(
            boundary.stage.input.local_len as int,
            boundary.plan.real_len as int,
            boundary.extra as int,
        ) is Some,
        line_kernel::<Complex<R>, R, LocalR2cError, F>(*kernel),
        old(shared).real_pencils is None,
    ensures
        same_lens(*old(shared), *final(shared)),
        keeps_allocation(*final(shared)),
        reverse_settled::<R, F, N, M>(
            *kernel,
            *boundary,
            *buffers,
            detached,
            given,
            lines@,
            *final(shared),
            result,
        ),
        final(shared).real_pencils is Some ==> final(shared).complex_pencils == old(
            shared,
        ).complex_pencils,
{
    let rows: usize = match boundary_row_count(
        boundary.stage.input.local_len,
        boundary.plan.real_len,
        boundary.extra,
    ) {
        Ok(rows) => rows,
        Err(error) => {
            return Err(R2cError::Fft(error));
        },
    };
    let stride: usize = match memory_stride(&boundary.stage.output, boundary.stage.axis) {
        Ok(stride) => stride,
        Err(error) => {
            return Err(R2cError::Fft(error));
        },
    };
    proof {
        if stride > 1 && rows == 0 {
            lemma_small_mod(0, stride as nat);
        }
    }
    match convert_recast_reverse(
        kernel,
        lines,
        &boundary.plan,
        rows,
        stride,
        shared.real_storage_len,
        buffers,
        true,
        true,
    ) {
        Ok(reals) => {
            let ghost converted = reals@;
            let installed = install_real_storage(
                shared,
                detached.destination,
                detached.extra_shape,
                reals,
                detached.active,
            );
            shared.complex_pencils = Some(detached.source);
            let ghost fault: Option<ArrayError> = match installed {
                Ok(_) => None,
                Err(error) => Some(error->Array_0),
            };
            assert(real_taken_on(detached, converted, *shared, fault));
            match installed {
                Ok(done) => Ok(done),
                Err(error) => Err(R2cError::Fft(error)),
            }
        },
        Err(ReverseFailure::Complex(same, error)) => {
            let ghost left = same@;
            let installed = install_complex_storage(
                shared,
                detached.source,
                detached.extra_shape,
                same,
                given,
            );
            shared.real_pencils = Some(detached.destination);
            let ghost fault: Option<ArrayError> = match installed {
                Ok(_) => None,
                Err(error) => Some(error->Array_0),
            };
            assert(complex_kept(detached, given, left, *shared, fault));
            assert(reverse_cause::<R, LocalR2cError, F>(
                *kernel,
                rows as int,
                stride as int,
                boundary.plan,
                recast_reverse_error(
                    rows as int,
                    stride as int,
                    boundary.plan,
                    shared.real_storage_len as int,
                    lines@.len() as int,
                    *buffers,
                    true,
                    true,
                ),
                lines@,
                error,
            ));
            match installed {
                Ok(_) => Err(r2c_fault(error)),
                Err(kept) => Err(R2cError::Fft(kept)),
            }
        },
        Err(ReverseFailure::Real(same, error)) => {
            let ghost left = same@;
            let installed = install_real_storage(
                shared,
                detached.destination,
                detached.extra_shape,
                same,
                detached.active,
            );
            shared.complex_pencils = Some(detached.source);
            let ghost fault: Option<ArrayError> = match installed {
                Ok(_) => None,
                Err(error) => Some(error->Array_0),
            };
            assert(real_taken_on(detached, left, *shared, fault));
            assert(reverse_cause::<R, LocalR2cError, F>(
                *kernel,
                rows as int,
                stride as int,
                boundary.plan,
                recast_reverse_error(
                    rows as int,
                    stride as int,
                    boundary.plan,
                    shared.real_storage_len as int,
                    lines@.len() as int,
                    *buffers,
                    true,
                    true,
                ),
                lines@,
                error,
            ));
            match installed {
                Ok(_) => Err(r2c_fault(error)),
                Err(kept) => Err(R2cError::Fft(kept)),
            }
        },
    }
}

/// What an allocation that is too small for a handoff to the real side comes to: the complex side
/// is registered again, and a registration that fails comes first.
pub open spec fn reverse_too_small<R: FftReal, const N: usize, const M: usize>(
    before: SharedStorage<R, N, M>,
    after: SharedStorage<R, N, M>,
    result: Result<(), R2cError>,
) -> bool {
    let source = complex_side(before);
    &&& after.real_pencils == before.real_pencils
    &&& after.complex_pencils == before.complex_pencils
    &&& exists|installed: Option<ArrayError>|
        {
            &&& #[trigger] complex_installed(
                source.pencils,
                source.active->0,
                source.extra_shape,
                source.storage@,
                after,
                installed,
            )
            &&& result == Err::<(), R2cError>(
                registered_outcome(installed, R2cError::Fft(FftError::StorageLayoutMismatch)),
            )
        }
}

/// What a handoff to the real side comes to if its allocation has the given capacity: it is too
/// small, or filled up as far as is needed and recast.
pub open spec fn reverse_run<R: FftReal, F: Fn(&[Complex<R>], usize) -> Result<Vec<R>, LocalR2cError>, const N: usize, const M: usize>(
    kernel: F,
    boundary: Boundary<N, M>,
    buffers: LineBuffers,
    capacity: usize,
    before: SharedStorage<R, N, M>,
    after: SharedStorage<R, N, M>,
    result: Result<(), R2cError>,
) -> bool {
    let source = complex_side(before);
    let needed = reverse_len(boundary, before);
    &&& source.storage@.len() <= capacity
    &&& if capacity < needed {
        reverse_too_small(before, after, result)
    } else {
        exists|active: usize|
            {
                &&& #[trigger] first_layout(
                    before.real_pencils->0@,
                    boundary.stage.input,
                    active as int,
                )
                &&& reverse_settled::<R, F, N, M>(
                    kernel,
                    boundary,
                    buffers,
                    (Detached {
                        source: source.pencils,
                        destination: before.real_pencils->0,
                        active,
                        extra_shape: source.extra_shape,
                    }),
                    source.active->0,
                    filled_up(source.storage@, needed as nat),
                    after,
                    result,
                )
            }
    }
}

/// What turning the complex side of a shared allocation into the real side comes to.
pub open spec fn complex_handed_over<R: FftReal, F: Fn(&[Complex<R>], usize) -> Result<Vec<R>, LocalR2cError>, const N: usize, const M: usize>(
    kernel: F,
    boundary: Boundary<N, M>,
    buffers: LineBuffers,
    before: SharedStorage<R, N, M>,
    after: SharedStorage<R, N, M>,
    result: Result<(), R2cError>,
) -> bool {
    &&& same_lens(before, after)
    &&& match reverse_refused(boundary, before) {
        Some(error) => result == Err::<(), R2cError>(R2cError::Fft(error)) && reverse_left(
            error == FftError::PreparationFailed || before.real_pencils is None
                || !has_layout(before.real_pencils->0@, boundary.stage.input),
            before,
            after,
        ),
        None => {
            &&& keeps_allocation(after)
            &&& result is Ok ==> reverse_handed::<R, LocalR2cError, F, N, M>(
                kernel,
                boundary.plan,
                handoff_rows(boundary),
                boundary.complex_stride()->0 as int,
                real_side(after).active->0 as int,
                before,
                after,
            )
            &&& result matches Err(R2cError::LocalR2c(error)) ==> reverse_rejected::<
                R,
                LocalR2cError,
                F,
                N,
                M,
            >(
                kernel,
                boundary.plan,
                handoff_rows(boundary),
                boundary.complex_stride()->0 as int,
                before,
                error,
            )
            &&& exists|capacity: usize| #[trigger]
                reverse_run::<R, F, N, M>(
                    kernel,
                    boundary,
                    buffers,
                    capacity,
                    before,
                    after,
                    result,
                )
        },
    }
}

/// Turns the complex side of a shared allocation that has the given capacity into the real side. It
/// is refused where it has too little room, and only there; the allocation stays owned.
pub fn convert_complex_to_real_in<R: FftReal, F: Fn(&[Complex<R>], usize) -> Result<Vec<R>, LocalR2cError>, const N: usize, const M: usize>(
    kernel: &F,
    boundary: &Boundary<N, M>,
    shared: &mut SharedStorage<R, N, M>,
    buffers: &LineBuffers,
    capacity: usize,
) -> (result: Result<(), R2cError>)
    requires
        boundary.wf(),
        line_kernel::<Complex<R>, R, LocalR2cError, F>(*kernel),
        old(shared).storage matches Some(HalfComplexStorage::Complex(source)) ==> source.storage@.len()
            <= capacity,
    ensures
        complex_handed_over::<R, F, N, M>(
            *kernel,
            *boundary,
            *buffers,
            *old(shared),
            *final(shared),
            result,
        ),
        reverse_refused(*boundary, *old(shared)) is None ==> reverse_run::<R, F, N, M>(
            *kernel,
            *boundary,
            *buffers,
            capacity,
            *old(shared),
            *final(shared),
            result,
        ),
{
    let rows: usize = match boundary_row_count(
        boundary.stage.input.local_len,
        boundary.plan.real_len,
        boundary.extra,
    ) {
        Ok(rows) => rows,
        Err(error) => {
            return Err(R2cError::Fft(error));
        },
    };
    let full_complex_len: usize = match promoted_complex_len(
        &boundary.stage,
        shared.real_storage_len,
        shared.complex_storage_len,
        R::scalar_bytes(),
    ) {
        Ok(len) => len,
        Err(error) => {
            return Err(R2cError::Fft(error));
        },
    };
    let stride: usize = match memory_stride(&boundary.stage.output, boundary.stage.axis) {
        Ok(stride) => stride,
        Err(error) => {
            return Err(R2cError::Fft(error));
        },
    };
    let destination: Vec<Pencil<N, M>> = match shared.real_pencils.take() {
        Some(pencils) => pencils,
        None => {
            return Err(R2cError::Fft(FftError::StorageLayoutMismatch));
        },
    };
    let active: usize = match find_layout(&destination, &boundary.stage.input) {
        Some(active) => active,
        None => {
            shared.real_pencils = Some(destination);
            return Err(R2cError::Fft(FftError::StorageLayoutMismatch));
        },
    };
    assert(has_layout(destination@, boundary.stage.input));
    let source: ManyPencilArray<Complex<R>, N, M> = match shared.storage.take() {
        Some(HalfComplexStorage::Complex(source)) => source,
        _ => {
            shared.real_pencils = Some(destination);
            return Err(R2cError::Fft(FftError::StorageLayoutMismatch));
        },
    };
    let parts: ArrayParts<Complex<R>, N, M> = match source.into_parts_preserving() {
        Ok(parts) => parts,
        Err((error, same)) => {
            shared.storage = Some(HalfComplexStorage::PoisonedComplex(same.into_storage()));
            shared.real_pencils = Some(destination);
            return Err(R2cError::Fft(FftError::Array(error)));
        },
    };
    let ghost packed = parts.storage@;
    let ghost given_side = complex_side(*old(shared));
    if full_complex_len > capacity {
        let kept = install_complex_storage(
            shared,
            parts.pencils,
            parts.extra_shape,
            parts.storage,
            parts.active,
        );
        shared.real_pencils = Some(destination);
        let ghost fault: Option<ArrayError> = match kept {
            Ok(_) => None,
            Err(error) => Some(error->Array_0),
        };
        assert(complex_installed(
            given_side.pencils,
            given_side.active->0,
            given_side.extra_shape,
            given_side.storage@,
            *shared,
            fault,
        ));
        let result = match kept {
            Ok(_) => Err(R2cError::Fft(FftError::StorageLayoutMismatch)),
            Err(error) => Err(R2cError::Fft(error)),
        };
        assert(reverse_run::<R, F, N, M>(
            *kernel,
            *boundary,
            *buffers,
            capacity,
            *old(shared),
            *shared,
            result,
        ));
        return result;
    }
    let mut storage: Vec<Complex<R>> = parts.storage;
    let zero: R = R::zero();
    resize_filled(&mut storage, full_complex_len, [zero, zero]);
    let ghost filled = storage@;
    let detached: Detached<N, M> = Detached {
        source: parts.pencils,
        destination,
        active,
        extra_shape: parts.extra_shape,
    };
    let result = settle_reverse(
        kernel,
        boundary,
        buffers,
        detached,
        parts.active,
        storage,
        shared,
    );
    proof {
        assert(first_layout(old(shared).real_pencils->0@, boundary.stage.input, active as int));
        assert(detached == (Detached {
            source: given_side.pencils,
            destination: old(shared).real_pencils->0,
            active,
            extra_shape: given_side.extra_shape,
        }));
        assert(reverse_run::<R, F, N, M>(
            *kernel,
            *boundary,
            *buffers,
            capacity,
            *old(shared),
            *shared,
            result,
        ));
        if stride > 1 && rows == 0 {
            lemma_small_mod(0, stride as nat);
        }
        let refusal = recast_reverse_error(
            rows as int,
            stride as int,
            boundary.plan,
            shared.real_storage_len as int,
            filled.len() as int,
            *buffers,
            true,
            true,
        );
        if result is Ok {
            let (converted, installed) = choose|converted: Seq<R>, installed: Option<ArrayError>|
                {
                    &&& converted.len() == 2 * filled.len()
                    &&& #[trigger] real_taken_on(detached, converted, *shared, installed)
                    &&& refusal is None
                    &&& (stride > 1 ==> rows * boundary.plan.real_len <= shared.real_storage_len)
                        ==> reverse_converted::<R, LocalR2cError, F>(
                        *kernel,
                        filled,
                        converted,
                        rows as int / lanes(stride as int),
                        boundary.plan.complex_len as nat,
                        boundary.plan.real_len as nat,
                        lanes(stride as int),
                    )
                    &&& result == match installed {
                        None => Ok::<(), R2cError>(()),
                        Some(error) => Err(R2cError::Fft(FftError::Array(error))),
                    }
                };
            let target = shared.storage->0->Real_0;
            if old(shared).complex_storage_len == packed.len() && rows * boundary.plan.complex_len
                <= packed.len() && rows * boundary.plan.real_len <= target.storage@.len() {
                assert(target.storage@ =~= converted.take(target.storage@.len() as int));
                lemma_reverse_landed::<R, LocalR2cError, F>(
                    *kernel,
                    packed,
                    filled,
                    converted,
                    target.storage@,
                    boundary.plan,
                    rows as int,
                    stride as int,
                );
            }
        } else if result->Err_0 is LocalR2c {
            let cause = SweepError::<LocalR2cError>::Kernel(result->Err_0->LocalR2c_0);
            assert(reverse_cause::<R, LocalR2cError, F>(
                *kernel,
                rows as int,
                stride as int,
                boundary.plan,
                refusal,
                filled,
                cause,
            ));
            lemma_reverse_rejected::<R, LocalR2cError, F>(
                *kernel,
                packed,
                filled,
                boundary.plan,
                rows as int,
                stride as int,
                result->Err_0->LocalR2c_0,
                old(shared).complex_storage_len as int,
            );
        }
    }
    result
}

/// Turns the complex side of a shared allocation into the real side. The capacity of the allocation
/// rests on the allocator; [`convert_complex_to_real_in`] says what follows for each one.
pub fn convert_complex_to_real<R: FftReal, F: Fn(&[Complex<R>], usize) -> Result<Vec<R>, LocalR2cError>, const N: usize, const M: usize>(
    kernel: &F,
    boundary: &Boundary<N, M>,
    shared: &mut SharedStorage<R, N, M>,
    buffers: &LineBuffers,
) -> (result: Result<(), R2cError>)
    requires
        boundary.wf(),
        line_kernel::<Complex<R>, R, LocalR2cError, F>(*kernel),
    ensures
        complex_handed_over::<R, F, N, M>(
            *kernel,
            *boundary,
            *buffers,
            *old(shared),
            *final(shared),
            result,
        ),
{
    let capacity: usize = match &shared.storage {
        Some(HalfComplexStorage::Complex(source)) => capacity_of(&source.storage),
        _ => 0,
    };
    convert_complex_to_real_in(kernel, boundary, shared, buffers, capacity)
}

fn r2c_fault(error: SweepError<LocalR2cError>) -> (result: R2cError)
    ensures
        result == fault_of(error),
{
    match error {
        SweepError::Fft(fault) => R2cError::Fft(fault),
        SweepError::Kernel(rejected) => R2cError::LocalR2c(rejected),
    }
}

/// A failure in the recast allocation is one of the registered array.
pub proof fn lemma_reverse_rejected<R, E, F: Fn(&[Complex<R>], usize) -> Result<Vec<R>, E>>(
    kernel: F,
    source: Seq<Complex<R>>,
    resized: Seq<Complex<R>>,
    plan: LocalR2cPlan,
    rows: int,
    stride: int,
    error: E,
    side_len: int,
)
    requires
        0 <= rows,
        side_len <= resized.len(),
        forall|i: int|
            0 <= i < source.len() && i < resized.len() ==> #[trigger] resized[i] == source[i],
        some_line_fails::<Complex<R>, R, E, F>(
            kernel,
            resized,
            rows / lanes(stride),
            plan.complex_len as nat,
            plan.real_len as int,
            lanes(stride),
            error,
        ),
    ensures
        rejects::<Complex<R>, R, E, F>(kernel, error),
        side_len == source.len() && rows * plan.complex_len <= source.len() ==> some_line_fails::<
            Complex<R>,
            R,
            E,
            F,
        >(
            kernel,
            source,
            rows / lanes(stride),
            plan.complex_len as nat,
            plan.real_len as int,
            lanes(stride),
            error,
        ),
{
    if side_len == source.len() && rows * plan.complex_len <= source.len() {
        let count = lanes(stride);
        let groups = rows / count;
        let len = plan.complex_len as int;
        lemma_fundamental_div_mod(rows, count);
        assert(groups * len * count <= rows * len) by (nonlinear_arith)
            requires
                rows == count * groups + rows % count,
                0 <= rows % count,
                0 <= len,
        ;
        assert forall|i: int| 0 <= i < groups * len * count implies #[trigger] source[i]
            == resized[i] by {
            assert(resized[i] == source[i]);
        }
        lemma_fails_transfer::<Complex<R>, R, E, F>(
            kernel,
            resized,
            source,
            groups,
            plan.complex_len as nat,
            plan.real_len as int,
            count,
            error,
        );
    }
}

/// A failure in the recast allocation is one of the registered array.
pub proof fn lemma_forward_rejected<R, E, F: Fn(&[R], usize) -> Result<Vec<Complex<R>>, E>>(
    kernel: F,
    source: Seq<R>,
    resized: Seq<R>,
    plan: LocalR2cPlan,
    rows: int,
    stride: int,
    error: E,
    side_len: int,
)
    requires
        0 <= rows,
        side_len <= resized.len(),
        forall|i: int|
            0 <= i < source.len() && i < resized.len() ==> #[trigger] resized[i] == source[i],
        some_line_fails::<R, Complex<R>, E, F>(
            kernel,
            resized,
            rows / lanes(stride),
            plan.real_len as nat,
            plan.complex_len as int,
            lanes(stride),
            error,
        ),
    ensures
        rejects::<R, Complex<R>, E, F>(kernel, error),
        side_len == source.len() && rows * plan.real_len <= source.len() ==> some_line_fails::<
            R,
            Complex<R>,
            E,
            F,
        >(
            kernel,
            source,
            rows / lanes(stride),
            plan.real_len as nat,
            plan.complex_len as int,
            lanes(stride),
            error,
        ),
{
    if side_len == source.len() && rows * plan.real_len <= source.len() {
        let count = lanes(stride);
        let groups = rows / count;
        let len = plan.real_len as int;
        lemma_fundamental_div_mod(rows, count);
        assert(groups * len * count <= rows * len) by (nonlinear_arith)
            requires
                rows == count * groups + rows % count,
                0 <= rows % count,
                0 <= len,
        ;
        assert forall|i: int| 0 <= i < groups * len * count implies #[trigger] source[i]
            == resized[i] by {
            assert(resized[i] == source[i]);
        }
        lemma_fails_transfer::<R, Complex<R>, E, F>(
            kernel,
            resized,
            source,
            groups,
            plan.real_len as nat,
            plan.complex_len as int,
            count,
            error,
        );
    }
}

} // verus!
