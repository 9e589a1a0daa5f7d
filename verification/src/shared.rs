//! The one allocation of an in-place array: how it is made, and what of it can be seen.

use vstd::prelude::*;

use crate::array::capacity_of;
use crate::array::resize_filled;
use crate::array::ManyPencilArray;
use crate::error::ArrayError;
use crate::error::FftError;
use crate::handoff::HalfComplexStorage;
use crate::handoff::SharedStorage;
use crate::layout::ExtraShape;
use crate::layout::Pencil;
use crate::layout::R2cState;
use crate::registry::distinct_layouts;
use crate::registry::has_layout;
use crate::registry::inputs_of;
use crate::registry::is_empty_room;
use crate::registry::largest_local_len;
use crate::registry::lemma_distinct_layouts;
use crate::registry::lemma_largest_local_len;
use crate::registry::outputs_of;
use crate::registry::room_for;
use crate::registry::stages_wf;
use crate::registry::Stage;
use crate::scalar::pair_size;
use crate::scalar::Complex;
use crate::scalar::FftReal;
use crate::storage::in_place_storage_requirements;
use crate::storage::law_storage_suffices;
use crate::storage::real_need;
use crate::storage::storage_needs;
use crate::storage::StorageNeeds;
use crate::workspace::all_are;
use crate::workspace::freshly_registered;
use crate::workspace::zero_complex;

verus! {

/// Layouts that lay arrays out alike have local blocks of one size.
pub proof fn lemma_same_layout_len<const N: usize, const M: usize>(
    left: Pencil<N, M>,
    right: Pencil<N, M>,
)
    requires
        left.wf(),
        right.wf(),
        left.spec_same_layout(&right),
    ensures
        left.local_len == right.local_len,
{
    assert(left.memory_extents() =~= right.memory_extents());
}

/// Leaving out repeated layouts does not make the largest local block smaller.
pub proof fn lemma_distinct_largest<const N: usize, const M: usize>(pencils: Seq<Pencil<N, M>>)
    requires
        forall|i: int| 0 <= i < pencils.len() ==> (#[trigger] pencils[i]).wf(),
    ensures
        largest_local_len(distinct_layouts(pencils)) == largest_local_len(pencils),
    decreases pencils.len(),
{
    if pencils.len() > 0 {
        let shorter = pencils.drop_last();
        let front = distinct_layouts(shorter);
        let last = pencils.last();
        assert forall|i: int| 0 <= i < shorter.len() implies (#[trigger] shorter[i]).wf() by {
            assert(shorter[i] == pencils[i]);
        }
        lemma_distinct_largest(shorter);
        if has_layout(front, last) {
            let k = choose|k: int|
                0 <= k < front.len() && (#[trigger] front[k]).spec_same_layout(&last);
            lemma_distinct_layouts(shorter);
            assert(shorter.contains(front[k]));
            let j = choose|j: int| 0 <= j < shorter.len() && shorter[j] == front[k];
            assert(pencils[j] == front[k]);
            assert(pencils[pencils.len() - 1].wf());
            lemma_same_layout_len(front[k], last);
            lemma_largest_local_len(front);
        } else {
            assert(front.push(last).drop_last() =~= front);
        }
    }
}

/// The values of the active side belong together.
pub open spec fn shared_wf<R, const N: usize, const M: usize>(shared: SharedStorage<R, N, M>) -> bool {
    match shared.storage {
        Some(HalfComplexStorage::Real(values)) => values.wf(),
        Some(HalfComplexStorage::Complex(values)) => values.wf(),
        _ => true,
    }
}

/// An allocation that was just made for a plan: real zeros, large enough for both sides.
pub open spec fn fresh_shared<R: FftReal, const N: usize, const M: usize>(
    shared: SharedStorage<R, N, M>,
    stages: Seq<Stage<N, M>>,
    boundary: usize,
    extra_shape: ExtraShape,
) -> bool {
    let needs = storage_needs(
        stages,
        Some(boundary),
        extra_shape.element_count as int,
        R::bytes() as int,
    );
    &&& needs is Some
    &&& shared.real_pencils is None
    &&& shared.complex_pencils is Some
    &&& shared.complex_pencils->0@ == distinct_layouts(
        outputs_of(stages.skip(boundary as int)),
    )
    &&& shared.real_storage_len == needs->0.real_len
    &&& shared.complex_storage_len == needs->0.complex_len
    &&& shared.storage_bytes == needs->0.storage_bytes
    &&& shared.storage matches Some(HalfComplexStorage::Real(values)) && freshly_registered(
        values,
        distinct_layouts(inputs_of(stages.take(boundary + 1))),
        extra_shape,
        R::zero_bits(),
    )
}

/// Why the allocation of a plan could not be made.
pub open spec fn shared_error<R: FftReal, const N: usize, const M: usize>(
    error: FftError,
    stages: Seq<Stage<N, M>>,
    boundary: usize,
    extra_shape: ExtraShape,
) -> bool {
    match storage_needs(
        stages,
        Some(boundary),
        extra_shape.element_count as int,
        R::bytes() as int,
    ) {
        None => error == FftError::PreparationFailed,
        Some(needs) => error == (FftError::AllocationFailed { required: needs.complex_capacity }),
    }
}

/// Makes the allocation of a plan in `room`, as complex zeros that are then read as real ones.
pub fn allocate_shared_in<R: FftReal, const N: usize, const M: usize>(
    room: Option<Vec<Complex<R>>>,
    stages: &Vec<Stage<N, M>>,
    boundary: usize,
    extra_shape: &ExtraShape,
    real_pencils: Vec<Pencil<N, M>>,
    complex_pencils: Vec<Pencil<N, M>>,
) -> (result: Result<SharedStorage<R, N, M>, FftError>)
    requires
        is_empty_room(room),
        boundary < stages@.len(),
        stages_wf(stages@),
        real_pencils@ == distinct_layouts(inputs_of(stages@.take(boundary + 1))),
        complex_pencils@ == distinct_layouts(outputs_of(stages@.skip(boundary as int))),
    ensures
        match storage_needs(
            stages@,
            Some(boundary),
            extra_shape.element_count as int,
            R::bytes() as int,
        ) {
            None => result == Err::<SharedStorage<R, N, M>, FftError>(FftError::PreparationFailed),
            Some(needs) => match room {
                None => result == Err::<SharedStorage<R, N, M>, FftError>(
                    FftError::AllocationFailed { required: needs.complex_capacity },
                ),
                Some(_) => result matches Ok(shared) && fresh_shared(
                    shared,
                    stages@,
                    boundary,
                    *extra_shape,
                ) && shared_wf(shared),
            },
        },
{
    let scalar_bytes: usize = R::scalar_bytes();
    let needs: StorageNeeds = match in_place_storage_requirements(
        stages,
        Some(boundary),
        extra_shape.element_count,
        scalar_bytes,
    ) {
        Ok(needs) => needs,
        Err(error) => {
            return Err(error);
        },
    };
    let ghost inputs = inputs_of(stages@.take(boundary + 1));
    proof {
        law_storage_suffices(
            stages@,
            boundary,
            extra_shape.element_count as int,
            R::bytes() as int,
        );
        assert forall|i: int| 0 <= i < inputs.len() implies (#[trigger] inputs[i]).wf() by {
            assert(inputs[i] == stages@[i].input);
            assert(stages@[i].wf());
        }
        lemma_distinct_largest(inputs);
        lemma_distinct_layouts(inputs);
        assert(real_need(stages@, boundary as int, extra_shape.element_count as int)
            == largest_local_len(real_pencils@) * extra_shape.element_count);
        assert(inputs.len() == boundary + 1);
    }
    let mut pairs: Vec<Complex<R>> = match room {
        Some(pairs) => pairs,
        None => {
            return Err(FftError::AllocationFailed { required: needs.complex_capacity });
        },
    };
    resize_filled(&mut pairs, needs.complex_capacity, zero_complex::<R>());
    let mut scalars: Vec<R> = match R::recast_to_scalars(pairs) {
        Ok(scalars) => scalars,
        Err(_) => Vec::new(),
    };
    proof {
        let zero = R::zero_bits();
        assert([zero, zero]@[0] == zero && [zero, zero]@[1] == zero);
        assert forall|i: int| 0 <= i < scalars@.len() implies #[trigger] scalars@[i] == zero by {
            assert(pairs@[i / 2] == [zero, zero]);
            assert(i % 2 == 0 || i % 2 == 1);
        }
    }
    scalars.truncate(needs.real_len);
    assert(all_are(scalars@, needs.real_len as int, R::zero_bits()));
    let built = ManyPencilArray::from_vec_preserving(
        real_pencils,
        0,
        extra_shape.duplicate(),
        scalars,
    );
    match built {
        Ok(values) => Ok(
            SharedStorage {
                real_pencils: None,
                complex_pencils: Some(complex_pencils),
                real_storage_len: needs.real_len,
                complex_storage_len: needs.complex_len,
                storage_bytes: needs.storage_bytes,
                storage: Some(HalfComplexStorage::Real(values)),
            },
        ),
        Err(_) => {
            assert(false);
            Err(FftError::StorageLayoutMismatch)
        },
    }
}

/// Asks for room for the complex values of a plan's allocation, if they can be counted. Whether there
/// is room rests on the machine.
pub fn shared_room<R: FftReal, const N: usize, const M: usize>(
    stages: &Vec<Stage<N, M>>,
    boundary: usize,
    extra_shape: &ExtraShape,
) -> (room: Option<Vec<Complex<R>>>)
    requires
        boundary < stages@.len(),
        stages_wf(stages@),
    ensures
        is_empty_room(room),
        storage_needs(
            stages@,
            Some(boundary),
            extra_shape.element_count as int,
            R::bytes() as int,
        ) is None ==> room is None,
{
    match in_place_storage_requirements(
        stages,
        Some(boundary),
        extra_shape.element_count,
        R::scalar_bytes(),
    ) {
        Ok(needs) => room_for(needs.complex_capacity),
        Err(_) => None,
    }
}

/// What keeps the real values of an in-place array from being seen.
pub open spec fn real_view_error<R, const N: usize, const M: usize>(
    state: R2cState,
    shared: SharedStorage<R, N, M>,
) -> Option<FftError> {
    match state {
        R2cState::Poisoned => Some(FftError::Array(ArrayError::Poisoned)),
        R2cState::ComplexOutput => Some(FftError::InputLayoutMismatch),
        R2cState::RealInput => match shared.storage {
            Some(HalfComplexStorage::Real(values)) => if values.active is None {
                Some(FftError::Array(ArrayError::Poisoned))
            } else {
                None
            },
            _ => Some(FftError::StorageLayoutMismatch),
        },
    }
}

/// What keeps the complex values of an in-place array from being seen.
pub open spec fn complex_view_error<R, const N: usize, const M: usize>(
    state: R2cState,
    shared: SharedStorage<R, N, M>,
) -> Option<FftError> {
    match state {
        R2cState::Poisoned => Some(FftError::Array(ArrayError::Poisoned)),
        R2cState::RealInput => Some(FftError::OutputLayoutMismatch),
        R2cState::ComplexOutput => match shared.storage {
            Some(HalfComplexStorage::Complex(values)) => if values.active is None {
                Some(FftError::Array(ArrayError::Poisoned))
            } else {
                None
            },
            _ => Some(FftError::StorageLayoutMismatch),
        },
    }
}

/// The values of the real side.
pub open spec fn real_side<R, const N: usize, const M: usize>(
    shared: SharedStorage<R, N, M>,
) -> ManyPencilArray<R, N, M> {
    shared.storage->0->Real_0
}

/// The values of the complex side.
pub open spec fn complex_side<R, const N: usize, const M: usize>(
    shared: SharedStorage<R, N, M>,
) -> ManyPencilArray<Complex<R>, N, M> {
    shared.storage->0->Complex_0
}

/// Everything but the values of the active side is as before.
pub open spec fn same_frame<R, const N: usize, const M: usize>(
    before: SharedStorage<R, N, M>,
    after: SharedStorage<R, N, M>,
) -> bool {
    &&& after.real_pencils == before.real_pencils
    &&& after.complex_pencils == before.complex_pencils
    &&& after.real_storage_len == before.real_storage_len
    &&& after.complex_storage_len == before.complex_storage_len
    &&& after.storage_bytes == before.storage_bytes
}

/// Returns the real values of the active layout.
pub fn view_real<R, const N: usize, const M: usize>(
    state: R2cState,
    shared: &SharedStorage<R, N, M>,
) -> (result: Result<&[R], FftError>)
    requires
        shared_wf(*shared),
    ensures
        match result {
            Ok(view) => {
                &&& real_view_error(state, *shared) is None
                &&& view@ == real_side(*shared).storage@.subrange(
                    0,
                    real_side(*shared).active_len(),
                )
            },
            Err(error) => real_view_error(state, *shared) == Some(error),
        },
{
    match state {
        R2cState::Poisoned => Err(FftError::Array(ArrayError::Poisoned)),
        R2cState::ComplexOutput => Err(FftError::InputLayoutMismatch),
        R2cState::RealInput => match &shared.storage {
            Some(HalfComplexStorage::Real(values)) => match values.active_view() {
                Ok(view) => Ok(view),
                Err(error) => Err(FftError::Array(error)),
            },
            _ => Err(FftError::StorageLayoutMismatch),
        },
    }
}

/// Returns the complex values of the active layout.
pub fn view_complex<R, const N: usize, const M: usize>(
    state: R2cState,
    shared: &SharedStorage<R, N, M>,
) -> (result: Result<&[Complex<R>], FftError>)
    requires
        shared_wf(*shared),
    ensures
        match result {
            Ok(view) => {
                &&& complex_view_error(state, *shared) is None
                &&& view@ == complex_side(*shared).storage@.subrange(
                    0,
                    complex_side(*shared).active_len(),
                )
            },
            Err(error) => complex_view_error(state, *shared) == Some(error),
        },
{
    match state {
        R2cState::Poisoned => Err(FftError::Array(ArrayError::Poisoned)),
        R2cState::RealInput => Err(FftError::OutputLayoutMismatch),
        R2cState::ComplexOutput => match &shared.storage {
            Some(HalfComplexStorage::Complex(values)) => match values.active_view() {
                Ok(view) => Ok(view),
                Err(error) => Err(FftError::Array(error)),
            },
            _ => Err(FftError::StorageLayoutMismatch),
        },
    }
}

/// Returns the real values of the active layout for writing.
pub fn view_real_mut<R, const N: usize, const M: usize>(
    state: R2cState,
    shared: &mut SharedStorage<R, N, M>,
) -> (result: Result<&mut [R], FftError>)
    requires
        shared_wf(*old(shared)),
    ensures
        same_frame(*old(shared), *final(shared)),
        match result {
            Ok(view) => {
                let before = real_side(*old(shared));
                &&& real_view_error(state, *old(shared)) is None
                &&& view@ == before.storage@.subrange(0, before.active_len())
                &&& final(shared).storage matches Some(HalfComplexStorage::Real(after))
                    && after.pencils == before.pencils && after.active == before.active
                    && after.extra_shape == before.extra_shape && after.storage@ == final(view)@
                    + before.storage@.subrange(before.active_len(), before.storage@.len() as int)
            },
            Err(error) => {
                &&& real_view_error(state, *old(shared)) == Some(error)
                &&& *final(shared) == *old(shared)
            },
        },
{
    match state {
        R2cState::Poisoned => {
            return Err(FftError::Array(ArrayError::Poisoned));
        },
        R2cState::ComplexOutput => {
            return Err(FftError::InputLayoutMismatch);
        },
        R2cState::RealInput => {},
    }
    let active: bool = match &shared.storage {
        Some(HalfComplexStorage::Real(values)) => values.active.is_some(),
        _ => {
            return Err(FftError::StorageLayoutMismatch);
        },
    };
    if !active {
        return Err(FftError::Array(ArrayError::Poisoned));
    }
    match &mut shared.storage {
        Some(HalfComplexStorage::Real(values)) => match values.active_view_mut() {
            Ok(view) => Ok(view),
            Err(error) => Err(FftError::Array(error)),
        },
        _ => Err(FftError::StorageLayoutMismatch),
    }
}

/// Returns the complex values of the active layout for writing.
pub fn view_complex_mut<R, const N: usize, const M: usize>(
    state: R2cState,
    shared: &mut SharedStorage<R, N, M>,
) -> (result: Result<&mut [Complex<R>], FftError>)
    requires
        shared_wf(*old(shared)),
    ensures
        same_frame(*old(shared), *final(shared)),
        match result {
            Ok(view) => {
                let before = complex_side(*old(shared));
                &&& complex_view_error(state, *old(shared)) is None
                &&& view@ == before.storage@.subrange(0, before.active_len())
                &&& final(shared).storage matches Some(HalfComplexStorage::Complex(after))
                    && after.pencils == before.pencils && after.active == before.active
                    && after.extra_shape == before.extra_shape && after.storage@ == final(view)@
                    + before.storage@.subrange(before.active_len(), before.storage@.len() as int)
            },
            Err(error) => {
                &&& complex_view_error(state, *old(shared)) == Some(error)
                &&& *final(shared) == *old(shared)
            },
        },
{
    match state {
        R2cState::Poisoned => {
            return Err(FftError::Array(ArrayError::Poisoned));
        },
        R2cState::RealInput => {
            return Err(FftError::OutputLayoutMismatch);
        },
        R2cState::ComplexOutput => {},
    }
    let active: bool = match &shared.storage {
        Some(HalfComplexStorage::Complex(values)) => values.active.is_some(),
        _ => {
            return Err(FftError::StorageLayoutMismatch);
        },
    };
    if !active {
        return Err(FftError::Array(ArrayError::Poisoned));
    }
    match &mut shared.storage {
        Some(HalfComplexStorage::Complex(values)) => match values.active_view_mut() {
            Ok(view) => Ok(view),
            Err(error) => Err(FftError::Array(error)),
        },
        _ => Err(FftError::StorageLayoutMismatch),
    }
}

/// Bytes of one stored element, and how many elements are stored at least.
pub open spec fn stored<R: FftReal, const N: usize, const M: usize>(
    storage: HalfComplexStorage<R, N, M>,
) -> (int, int) {
    match storage {
        HalfComplexStorage::Real(values) => (R::bytes() as int, values.storage@.len() as int),
        HalfComplexStorage::Complex(values) => (
            2 * R::bytes() as int,
            values.storage@.len() as int,
        ),
        HalfComplexStorage::PoisonedReal(values) => (R::bytes() as int, values@.len() as int),
        HalfComplexStorage::PoisonedComplex(values) => (2 * R::bytes() as int, values@.len() as int),
    }
}

/// The bytes of an allocation of `capacity` elements, if they can be counted.
pub open spec fn counted_bytes(size: int, capacity: int) -> Option<usize> {
    if capacity * size <= usize::MAX {
        Some((capacity * size) as usize)
    } else {
        None
    }
}

/// The bytes of what is stored, and of an allocation that has room for more.
pub open spec fn counts_bytes<R: FftReal, const N: usize, const M: usize>(
    shared: SharedStorage<R, N, M>,
    bytes: Option<usize>,
) -> bool {
    match shared.storage {
        None => bytes is None,
        Some(storage) => {
            &&& bytes is Some
            &&& stored(storage).0 * stored(storage).1 <= bytes->0 <= isize::MAX
            &&& bytes->0 as int % stored(storage).0 == 0
        },
    }
}

/// The bytes of an allocation of `capacity` elements of `size` bytes, if they can be counted.
pub fn capacity_bytes_of(size: usize, capacity: usize) -> (bytes: Option<usize>)
    ensures
        bytes == counted_bytes(size as int, capacity as int),
{
    capacity.checked_mul(size)
}

proof fn lemma_counted(size: int, len: int, capacity: int)
    requires
        0 < size,
        0 <= len <= capacity,
        capacity * size <= isize::MAX,
    ensures
        counted_bytes(size, capacity) == Some((capacity * size) as usize),
        size * len <= capacity * size,
        (capacity * size) % size == 0,
        0 <= capacity * size,
{
    assert(size * len <= capacity * size) by (nonlinear_arith)
        requires
            0 < size,
            0 <= len <= capacity,
    ;
    assert(0 <= capacity * size) by (nonlinear_arith)
        requires
            0 < size,
            0 <= capacity,
    ;
    vstd::arithmetic::div_mod::lemma_mod_multiples_basic(capacity, size);
}

/// Returns the bytes of the allocation, while it is there. How much more it holds than is stored
/// rests on the allocator; [`capacity_bytes_of`] says what follows for each capacity.
pub fn capacity_bytes<R: FftReal, const N: usize, const M: usize>(shared: &SharedStorage<R, N, M>) -> (bytes:
    Option<usize>)
    ensures
        counts_bytes(*shared, bytes),
{
    let size: usize = R::scalar_bytes();
    let pair: usize = pair_size::<R>();
    proof {
        R::lemma_bytes();
    }
    match &shared.storage {
        None => None,
        Some(HalfComplexStorage::Real(values)) => {
            let capacity: usize = capacity_of(&values.storage);
            proof {
                lemma_counted(size as int, values.storage@.len() as int, capacity as int);
            }
            capacity_bytes_of(size, capacity)
        },
        Some(HalfComplexStorage::Complex(values)) => {
            let capacity: usize = capacity_of(&values.storage);
            proof {
                lemma_counted(pair as int, values.storage@.len() as int, capacity as int);
            }
            capacity_bytes_of(pair, capacity)
        },
        Some(HalfComplexStorage::PoisonedReal(values)) => {
            let capacity: usize = capacity_of(values);
            proof {
                lemma_counted(size as int, values@.len() as int, capacity as int);
            }
            capacity_bytes_of(size, capacity)
        },
        Some(HalfComplexStorage::PoisonedComplex(values)) => {
            let capacity: usize = capacity_of(values);
            proof {
                lemma_counted(pair as int, values@.len() as int, capacity as int);
            }
            capacity_bytes_of(pair, capacity)
        },
    }
}

} // verus!
