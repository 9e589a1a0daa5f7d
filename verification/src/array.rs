//! Arrays of one rank: one layout, or several layouts that share a storage.

use vstd::layout::size_of;
use vstd::prelude::*;

use crate::error::ArrayError;
use crate::layout::ExtraShape;
use crate::layout::Pencil;
use crate::registry::all_distinct;
use crate::registry::largest_local_len;
use crate::registry::max_local_len;
use crate::registry::registered_distinct;

verus! {

/// The capacity of a vector, by `Vec::capacity`.
///
/// Claimed: it is no less than the length, and its bytes are no more than `isize::MAX`, as for every
/// vector. How much more than the length it is rests on the allocator.
#[verifier::external_body]
pub(crate) fn capacity_of<T>(elements: &Vec<T>) -> (capacity: usize)
    ensures
        elements@.len() <= capacity,
        capacity * size_of::<T>() <= isize::MAX,
{
    elements.capacity()
}

/// `elements` cut to `len`, or filled up with `value`.
pub open spec fn resized<T>(elements: Seq<T>, len: nat, value: T) -> Seq<T> {
    Seq::new(
        len,
        |i: int|
            if i < elements.len() {
                elements[i]
            } else {
                value
            },
    )
}

/// The first `len` of `elements`, or all if there are no more.
pub open spec fn cut<T>(elements: Seq<T>, len: nat) -> Seq<T> {
    if elements.len() <= len {
        elements
    } else {
        elements.take(len as int)
    }
}

/// Cuts `elements` to `len`, or fills it up with `value`.
pub fn resize_filled<T: Copy>(elements: &mut Vec<T>, len: usize, value: T)
    ensures
        final(elements)@ == resized(old(elements)@, len as nat, value),
        final(elements)@.len() == len,
        forall|i: int|
            #![trigger final(elements)@[i]]
            0 <= i < len ==> final(elements)@[i] == if i < old(elements)@.len() {
                old(elements)@[i]
            } else {
                value
            },
{
    if len < elements.len() {
        elements.truncate(len);
        assert(elements@ =~= resized(old(elements)@, len as nat, value));
        return ;
    }
    while elements.len() < len
        invariant
            old(elements)@.len() <= elements@.len() <= len,
            forall|i: int|
                #![trigger elements@[i]]
                0 <= i < elements@.len() ==> elements@[i] == if i < old(elements)@.len() {
                    old(elements)@[i]
                } else {
                    value
                },
        decreases len - elements@.len(),
    {
        elements.push(value);
    }
    assert(elements@ =~= resized(old(elements)@, len as nat, value));
}

/// An array in one layout.
#[derive(Debug)]
pub struct PencilArray<T, const N: usize, const M: usize> {
    /// Its layout.
    pub pencil: Pencil<N, M>,
    /// Its extra dimensions.
    pub extra_shape: ExtraShape,
    /// Its elements, one block for each extra element.
    pub data: Vec<T>,
}

impl<T, const N: usize, const M: usize> PencilArray<T, N, M> {
    /// The elements fill the local block for each extra element.
    pub open spec fn wf(&self) -> bool {
        &&& self.pencil.wf()
        &&& self.extra_shape.wf()
        &&& self.data@.len() == self.pencil.local_len * self.extra_shape.element_count
    }
}

/// Several layouts that share one storage, of which one is active unless an operation was
/// interrupted.
#[derive(Debug)]
pub struct ManyPencilArray<T, const N: usize, const M: usize> {
    /// The registered layouts.
    pub pencils: Vec<Pencil<N, M>>,
    /// Which of them is active; none after an interrupted operation.
    pub active: Option<usize>,
    /// The extra dimensions.
    pub extra_shape: ExtraShape,
    /// The shared elements.
    pub storage: Vec<T>,
}

/// The parts of a registered array.
#[derive(Debug)]
pub struct ArrayParts<T, const N: usize, const M: usize> {
    /// The registered layouts.
    pub pencils: Vec<Pencil<N, M>>,
    /// Which of them is active.
    pub active: usize,
    /// The extra dimensions.
    pub extra_shape: ExtraShape,
    /// The shared elements.
    pub storage: Vec<T>,
}

/// Layouts, an active one among them and a storage that belong together.
pub open spec fn registrable<const N: usize, const M: usize>(
    pencils: Seq<Pencil<N, M>>,
    active: int,
    extra: int,
    storage_len: int,
) -> bool {
    &&& 0 <= active < pencils.len()
    &&& all_distinct(pencils)
    &&& storage_len == largest_local_len(pencils) * extra
}

/// Why layouts and a storage do not belong together.
pub open spec fn registration_error<const N: usize, const M: usize>(
    pencils: Seq<Pencil<N, M>>,
    active: int,
    extra: int,
    storage_len: int,
) -> ArrayError {
    if active >= pencils.len() || !all_distinct(pencils) {
        ArrayError::IncompatiblePencils
    } else {
        ArrayError::StorageLength {
            required: if largest_local_len(pencils) * extra > usize::MAX {
                usize::MAX
            } else {
                (largest_local_len(pencils) * extra) as usize
            },
            actual: storage_len as usize,
        }
    }
}

impl<T, const N: usize, const M: usize> ManyPencilArray<T, N, M> {
    /// The parts belong together.
    pub open spec fn wf(&self) -> bool {
        &&& self.pencils@.len() > 0
        &&& all_distinct(self.pencils@)
        &&& self.storage@.len() == largest_local_len(self.pencils@)
            * self.extra_shape.element_count
        &&& self.active is Some ==> self.active->0 < self.pencils@.len()
    }

    /// The active layout, or why there is none.
    pub open spec fn spec_active_pencil(&self) -> Result<Pencil<N, M>, ArrayError> {
        match self.active {
            None => Err(ArrayError::Poisoned),
            Some(index) => if index < self.pencils@.len() {
                Ok(self.pencils@[index as int])
            } else {
                Err(ArrayError::IncompatiblePencils)
            },
        }
    }

    /// Registers layouts for a storage, or hands the storage back.
    pub fn from_vec_preserving(
        pencils: Vec<Pencil<N, M>>,
        active: usize,
        extra_shape: ExtraShape,
        storage: Vec<T>,
    ) -> (result: Result<ManyPencilArray<T, N, M>, (ArrayError, Vec<T>)>)
        ensures
            match result {
                Ok(array) => {
                    &&& registrable(
                        pencils@,
                        active as int,
                        extra_shape.element_count as int,
                        storage@.len() as int,
                    )
                    &&& array.wf()
                    &&& array.pencils == pencils
                    &&& array.active == Some(active)
                    &&& array.extra_shape == extra_shape
                    &&& array.storage == storage
                },
                Err((error, same)) => {
                    &&& !registrable(
                        pencils@,
                        active as int,
                        extra_shape.element_count as int,
                        storage@.len() as int,
                    )
                    &&& error == registration_error(
                        pencils@,
                        active as int,
                        extra_shape.element_count as int,
                        storage@.len() as int,
                    )
                    &&& same == storage
                },
            },
    {
        if active >= pencils.len() || !registered_distinct(&pencils) {
            return Err((ArrayError::IncompatiblePencils, storage));
        }
        let actual: usize = storage.len();
        match max_local_len(&pencils).checked_mul(extra_shape.element_count) {
            Some(required) => {
                if required != actual {
                    return Err((ArrayError::StorageLength { required, actual }, storage));
                }
                Ok(ManyPencilArray { pencils, active: Some(active), extra_shape, storage })
            },
            None => Err((ArrayError::StorageLength { required: usize::MAX, actual }, storage)),
        }
    }

    /// Takes the array apart, unless an operation was interrupted.
    pub fn into_parts_preserving(self) -> (result: Result<
        ArrayParts<T, N, M>,
        (ArrayError, ManyPencilArray<T, N, M>),
    >)
        ensures
            match result {
                Ok(parts) => {
                    &&& self.active == Some(parts.active)
                    &&& parts.pencils == self.pencils
                    &&& parts.extra_shape == self.extra_shape
                    &&& parts.storage == self.storage
                },
                Err((error, same)) => {
                    &&& self.active is None
                    &&& error == ArrayError::Poisoned
                    &&& same == self
                },
            },
    {
        match self.active {
            Some(active) => Ok(
                ArrayParts {
                    pencils: self.pencils,
                    active,
                    extra_shape: self.extra_shape,
                    storage: self.storage,
                },
            ),
            None => Err((ArrayError::Poisoned, self)),
        }
    }

    /// Takes the elements out.
    pub fn into_storage(self) -> (storage: Vec<T>)
        ensures
            storage == self.storage,
    {
        self.storage
    }

    /// Returns the active layout, or why there is none.
    pub fn active_pencil(&self) -> (result: Result<Pencil<N, M>, ArrayError>)
        ensures
            result == self.spec_active_pencil(),
    {
        match self.active {
            None => Err(ArrayError::Poisoned),
            Some(index) => {
                if index < self.pencils.len() {
                    Ok(self.pencils[index])
                } else {
                    Err(ArrayError::IncompatiblePencils)
                }
            },
        }
    }
}

} // verus!
