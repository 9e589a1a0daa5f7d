//! Buffers of an execution: how they are allocated, and whether they are long enough.

use vstd::prelude::*;

use crate::array::resize_filled;
use crate::array::ManyPencilArray;
use crate::array::PencilArray;
use crate::error::ArrayError;
use crate::error::Failure;
use crate::error::FftError;
use crate::layout::ExtraShape;
use crate::layout::Pencil;
use crate::registry::all_distinct;
use crate::registry::is_empty_room;
use crate::registry::largest_local_len;
use crate::registry::max_local_len;
use crate::registry::pencil_registry_error;
use crate::registry::registered_distinct;
use crate::registry::room_for;
use crate::registry::validate_exact_pencil_registry;
use crate::scalar::Complex;
use crate::scalar::FftReal;

verus! {

/// Buffers that an exchange packs values into and unpacks them from.
#[derive(Debug)]
pub struct TransposeWorkspace<T> {
    /// What is sent.
    pub send: Vec<T>,
    /// What is received.
    pub receive: Vec<T>,
}

/// The earlier of two errors.
pub open spec fn first_of<E>(earlier: Option<E>, later: Option<E>) -> Option<E> {
    match earlier {
        Some(error) => Some(error),
        None => later,
    }
}

/// A check that found an error rejects, any other accepts.
pub open spec fn verdict_of<E: Failure>(error: Option<FftError>) -> Result<(), E> {
    match error {
        None => Ok(()),
        Some(error) => Err(E::spec_of_fft(error)),
    }
}

/// Turns what a check found into a result.
pub fn verdict<E: Failure>(error: Option<FftError>) -> (result: Result<(), E>)
    ensures
        result == verdict_of::<E>(error),
{
    match error {
        None => Ok(()),
        Some(error) => Err(E::of_fft(error)),
    }
}

/// The error of a buffer that is too short.
pub open spec fn short_error(actual: usize, required: usize, kind: &'static str) -> Option<FftError> {
    if actual < required {
        Some(FftError::WorkspaceTooSmall { kind, required, actual })
    } else {
        None
    }
}

/// Checks that a buffer is long enough.
pub fn too_short(actual: usize, required: usize, kind: &'static str) -> (error: Option<FftError>)
    ensures
        error == short_error(actual, required, kind),
{
    if actual < required {
        Some(FftError::WorkspaceTooSmall { kind, required, actual })
    } else {
        None
    }
}

/// Checks that the embedding line is long enough.
pub fn validate_embedding_len(actual: usize, required: usize) -> (error: Option<FftError>)
    ensures
        error == short_error(actual, required, "complex embedding"),
{
    too_short(actual, required, "complex embedding")
}

/// Elements of the buffers that every execution needs.
#[derive(Clone, Copy, Debug, PartialEq, Eq, Structural)]
pub struct CommonLens {
    /// Elements of the scratch buffer.
    pub fft_scratch: usize,
    /// Elements sent by an exchange.
    pub send: usize,
    /// Elements received by an exchange.
    pub receive: usize,
}

/// What keeps buffers from serving an execution.
pub open spec fn lens_error(actual: CommonLens, required: CommonLens) -> Option<FftError> {
    first_of(
        short_error(actual.fft_scratch, required.fft_scratch, "fft scratch"),
        first_of(
            short_error(actual.send, required.send, "transpose send"),
            short_error(actual.receive, required.receive, "transpose receive"),
        ),
    )
}

/// Checks that the buffers of an execution are long enough, in this order: scratch, send, receive.
pub fn validate_workspace_lengths_values(actual: CommonLens, required: CommonLens) -> (error: Option<
    FftError,
>)
    ensures
        error == lens_error(actual, required),
{
    let scratch = too_short(actual.fft_scratch, required.fft_scratch, "fft scratch");
    if scratch.is_some() {
        return scratch;
    }
    let send = too_short(actual.send, required.send, "transpose send");
    if send.is_some() {
        return send;
    }
    too_short(actual.receive, required.receive, "transpose receive")
}

/// Returns the complex zero.
pub fn zero_complex<R: FftReal>() -> (zero: Complex<R>)
    ensures
        zero == [R::zero_bits(), R::zero_bits()],
{
    let zero: Complex<R> = [R::zero(), R::zero()];
    assert(zero@ =~= [R::zero_bits(), R::zero_bits()]@);
    zero
}

/// All elements have one value.
pub open spec fn all_are<T>(elements: Seq<T>, len: int, value: T) -> bool {
    &&& elements.len() == len
    &&& forall|i: int| 0 <= i < len ==> #[trigger] elements[i] == value
}

/// Fills the room that there is for a buffer with `len` elements of one value.
pub fn initialized_vec_in<T: Copy>(room: Option<Vec<T>>, len: usize, value: T) -> (result: Result<
    Vec<T>,
    FftError,
>)
    requires
        is_empty_room(room),
    ensures
        match room {
            Some(_) => result matches Ok(elements) && all_are(elements@, len as int, value),
            None => result == Err::<Vec<T>, FftError>(FftError::AllocationFailed { required: len }),
        },
{
    match room {
        Some(mut elements) => {
            resize_filled(&mut elements, len, value);
            Ok(elements)
        },
        None => Err(FftError::AllocationFailed { required: len }),
    }
}

/// Allocates a buffer of `len` elements with one value. Whether there is room rests on the machine;
/// [`initialized_vec_in`] says what follows for each answer.
pub fn initialized_vec<T: Copy>(len: usize, value: T) -> (result: Result<Vec<T>, FftError>)
    ensures
        match result {
            Ok(elements) => all_are(elements@, len as int, value),
            Err(error) => allocation_error(error, len as int),
        },
{
    initialized_vec_in(room_for(len), len, value)
}

impl<T: Copy> TransposeWorkspace<T> {
    /// The buffers have these lengths and hold one value.
    pub open spec fn filled(&self, send_len: usize, receive_len: usize, value: T) -> bool {
        all_are(self.send@, send_len as int, value) && all_are(
            self.receive@,
            receive_len as int,
            value,
        )
    }

    /// Fills the room that there is for the buffers.
    pub fn allocate_in(
        send_room: Option<Vec<T>>,
        receive_room: Option<Vec<T>>,
        send_len: usize,
        receive_len: usize,
        value: T,
    ) -> (result: Result<TransposeWorkspace<T>, FftError>)
        requires
            is_empty_room(send_room),
            is_empty_room(receive_room),
        ensures
            if send_room is None {
                result == Err::<TransposeWorkspace<T>, FftError>(
                    FftError::AllocationFailed { required: send_len },
                )
            } else if receive_room is None {
                result == Err::<TransposeWorkspace<T>, FftError>(
                    FftError::AllocationFailed { required: receive_len },
                )
            } else {
                result matches Ok(workspace) && workspace.filled(send_len, receive_len, value)
            },
    {
        let send = match initialized_vec_in(send_room, send_len, value) {
            Ok(elements) => elements,
            Err(error) => {
                return Err(error);
            },
        };
        let receive = match initialized_vec_in(receive_room, receive_len, value) {
            Ok(elements) => elements,
            Err(error) => {
                return Err(error);
            },
        };
        Ok(TransposeWorkspace { send, receive })
    }

    /// Allocates the buffers. Whether there is room rests on the machine;
    /// [`TransposeWorkspace::allocate_in`] says what follows for each answer.
    pub fn allocate(send_len: usize, receive_len: usize, value: T) -> (result: Result<
        TransposeWorkspace<T>,
        FftError,
    >)
        ensures
            match result {
                Ok(workspace) => workspace.filled(send_len, receive_len, value),
                Err(error) => allocation_error(error, send_len as int) || allocation_error(
                    error,
                    receive_len as int,
                ),
            },
    {
        let send = room_for(send_len);
        let receive = if send.is_some() {
            room_for(receive_len)
        } else {
            None
        };
        Self::allocate_in(send, receive, send_len, receive_len, value)
    }

    /// Returns the elements of the buffers, beside those of a scratch buffer.
    pub fn lens(&self, fft_scratch: usize) -> (lens: CommonLens)
        ensures
            lens.fft_scratch == fft_scratch,
            lens.send == self.send@.len(),
            lens.receive == self.receive@.len(),
    {
        CommonLens { fft_scratch, send: self.send.len(), receive: self.receive.len() }
    }
}

/// Why `len` elements could not be allocated.
pub open spec fn allocation_error(error: FftError, len: int) -> bool {
    if len > usize::MAX {
        error == FftError::Array(ArrayError::StorageLength { required: usize::MAX, actual: 0 })
    } else {
        error == (FftError::AllocationFailed { required: len as usize })
    }
}

/// The error of a buffer of `len` elements that there is no room for.
pub open spec fn no_room(len: usize) -> Option<FftError> {
    Some(FftError::AllocationFailed { required: len })
}

/// One of the buffers with these lengths could not be allocated.
pub open spec fn some_allocation_error(error: FftError, lens: Seq<int>) -> bool {
    exists|i: int| 0 <= i < lens.len() && allocation_error(error, #[trigger] lens[i])
}

/// An array of one value.
pub open spec fn filled_array<T, const N: usize, const M: usize>(
    array: PencilArray<T, N, M>,
    pencil: Pencil<N, M>,
    extra_shape: ExtraShape,
    value: T,
) -> bool {
    &&& array.wf()
    &&& array.pencil == pencil
    &&& array.extra_shape.dimensions@ == extra_shape.dimensions@
    &&& array.extra_shape.element_count == extra_shape.element_count
    &&& all_are(array.data@, pencil.local_len * extra_shape.element_count, value)
}

impl<T: Copy, const N: usize, const M: usize> PencilArray<T, N, M> {
    /// Fills the room that there is for an array with one value.
    pub fn from_elem_in(
        room: Option<Vec<T>>,
        pencil: &Pencil<N, M>,
        extra_shape: &ExtraShape,
        value: T,
    ) -> (result: Result<PencilArray<T, N, M>, FftError>)
        requires
            pencil.wf(),
            extra_shape.wf(),
            is_empty_room(room),
        ensures
            if room is Some && pencil.local_len * extra_shape.element_count <= usize::MAX {
                result matches Ok(array) && filled_array(array, *pencil, *extra_shape, value)
            } else {
                result matches Err(error) && allocation_error(
                    error,
                    pencil.local_len * extra_shape.element_count,
                )
            },
    {
        match pencil.local_len.checked_mul(extra_shape.element_count) {
            None => Err(
                FftError::Array(ArrayError::StorageLength { required: usize::MAX, actual: 0 }),
            ),
            Some(len) => match initialized_vec_in(room, len, value) {
                Ok(data) => Ok(
                    PencilArray { pencil: *pencil, extra_shape: extra_shape.duplicate(), data },
                ),
                Err(error) => Err(error),
            },
        }
    }

    /// Allocates an array of one value. Whether there is room rests on the machine;
    /// [`PencilArray::from_elem_in`] says what follows for each answer.
    pub fn from_elem(pencil: &Pencil<N, M>, extra_shape: &ExtraShape, value: T) -> (result: Result<
        PencilArray<T, N, M>,
        FftError,
    >)
        requires
            pencil.wf(),
            extra_shape.wf(),
        ensures
            match result {
                Ok(array) => filled_array(array, *pencil, *extra_shape, value),
                Err(error) => allocation_error(
                    error,
                    pencil.local_len * extra_shape.element_count,
                ),
            },
    {
        let room = match pencil.local_len.checked_mul(extra_shape.element_count) {
            None => None,
            Some(len) => room_for(len),
        };
        Self::from_elem_in(room, pencil, extra_shape, value)
    }
}

/// A registered array that was just allocated: the first layout is active and all elements have
/// one value.
pub open spec fn freshly_registered<T, const N: usize, const M: usize>(
    array: ManyPencilArray<T, N, M>,
    pencils: Seq<Pencil<N, M>>,
    extra_shape: ExtraShape,
    value: T,
) -> bool {
    &&& array.wf()
    &&& array.pencils@ == pencils
    &&& array.active == Some(0usize)
    &&& array.extra_shape.dimensions@ == extra_shape.dimensions@
    &&& array.extra_shape.element_count == extra_shape.element_count
    &&& all_are(array.storage@, largest_local_len(pencils) * extra_shape.element_count, value)
}

/// Copies a list of layouts.
pub fn copy_pencils<const N: usize, const M: usize>(pencils: &Vec<Pencil<N, M>>) -> (copy: Vec<
    Pencil<N, M>,
>)
    ensures
        copy@ == pencils@,
{
    let mut copy: Vec<Pencil<N, M>> = Vec::new();
    let mut index: usize = 0;
    while index < pencils.len()
        invariant
            index <= pencils@.len(),
            copy@ == pencils@.take(index as int),
        decreases pencils@.len() - index,
    {
        copy.push(pencils[index]);
        index += 1;
        assert(pencils@.take(index as int) =~= pencils@.take(index - 1).push(
            pencils@[index - 1],
        ));
    }
    assert(pencils@.take(index as int) =~= pencils@);
    copy
}

impl<T: Copy, const N: usize, const M: usize> ManyPencilArray<T, N, M> {
    /// Fills the room that there is for a registered array with one value, with the first layout
    /// active.
    pub fn from_elem_in(
        room: Option<Vec<T>>,
        pencils: &Vec<Pencil<N, M>>,
        extra_shape: &ExtraShape,
        value: T,
    ) -> (result: Result<ManyPencilArray<T, N, M>, FftError>)
        requires
            extra_shape.wf(),
            is_empty_room(room),
        ensures
            ({
                let len = largest_local_len(pencils@) * extra_shape.element_count;
                if pencils@.len() == 0 || !all_distinct(pencils@) {
                    result == Err::<ManyPencilArray<T, N, M>, FftError>(
                        FftError::Array(ArrayError::IncompatiblePencils),
                    )
                } else if room is Some && len <= usize::MAX {
                    result matches Ok(array) && freshly_registered(
                        array,
                        pencils@,
                        *extra_shape,
                        value,
                    )
                } else {
                    result matches Err(error) && allocation_error(error, len)
                }
            }),
    {
        if pencils.len() == 0 || !registered_distinct(pencils) {
            return Err(FftError::Array(ArrayError::IncompatiblePencils));
        }
        match max_local_len(pencils).checked_mul(extra_shape.element_count) {
            None => Err(
                FftError::Array(ArrayError::StorageLength { required: usize::MAX, actual: 0 }),
            ),
            Some(len) => match initialized_vec_in(room, len, value) {
                Ok(storage) => Ok(
                    ManyPencilArray {
                        pencils: copy_pencils(pencils),
                        active: Some(0),
                        extra_shape: extra_shape.duplicate(),
                        storage,
                    },
                ),
                Err(error) => Err(error),
            },
        }
    }

    /// Allocates a registered array of one value, with the first layout active. Whether there is
    /// room rests on the machine; [`ManyPencilArray::from_elem_in`] says what follows for each
    /// answer.
    pub fn from_elem(pencils: &Vec<Pencil<N, M>>, extra_shape: &ExtraShape, value: T) -> (result:
        Result<ManyPencilArray<T, N, M>, FftError>)
        requires
            extra_shape.wf(),
        ensures
            match result {
                Ok(array) => {
                    &&& pencils@.len() > 0
                    &&& all_distinct(pencils@)
                    &&& freshly_registered(array, pencils@, *extra_shape, value)
                },
                Err(error) => if pencils@.len() == 0 || !all_distinct(pencils@) {
                    error == FftError::Array(ArrayError::IncompatiblePencils)
                } else {
                    allocation_error(
                        error,
                        largest_local_len(pencils@) * extra_shape.element_count,
                    )
                },
            },
    {
        if pencils.len() == 0 || !registered_distinct(pencils) {
            return Err(FftError::Array(ArrayError::IncompatiblePencils));
        }
        let room = match max_local_len(pencils).checked_mul(extra_shape.element_count) {
            None => None,
            Some(len) => room_for(len),
        };
        Self::from_elem_in(room, pencils, extra_shape, value)
    }
}

/// What keeps a registered array from serving a plan that needs exactly the layouts `required`.
pub open spec fn registered_error<T, const N: usize, const M: usize>(
    array: ManyPencilArray<T, N, M>,
    required: Seq<Pencil<N, M>>,
) -> Option<FftError> {
    match array.spec_active_pencil() {
        Err(error) => Some(FftError::Array(error)),
        Ok(active) => pencil_registry_error(
            array.pencils@,
            required,
            active,
            array.storage@.len() as int,
            array.extra_shape.element_count as int,
        ),
    }
}

/// Checks that a registered array serves a plan that needs exactly the layouts `required`.
pub fn validate_registered<T, const N: usize, const M: usize>(
    array: &ManyPencilArray<T, N, M>,
    required: &Vec<Pencil<N, M>>,
) -> (error: Option<FftError>)
    ensures
        error == registered_error(*array, required@),
{
    match array.active_pencil() {
        Err(error) => Some(FftError::Array(error)),
        Ok(active) => match validate_exact_pencil_registry(
            &array.pencils,
            required,
            &active,
            array.storage.len(),
            &array.extra_shape,
        ) {
            Ok(_) => None,
            Err(error) => Some(error),
        },
    }
}

/// A layout is accepted where another is expected: it lays arrays out alike, and is the very same
/// where that is asked for.
pub open spec fn accepts_pencil<const N: usize, const M: usize>(
    strict: bool,
    actual: Pencil<N, M>,
    expected: Pencil<N, M>,
) -> bool {
    (strict ==> actual.id == expected.id) && actual.spec_same_layout(&expected)
}

/// Tells whether a layout is accepted where another is expected.
pub fn pencil_accepted<const N: usize, const M: usize>(
    strict: bool,
    actual: &Pencil<N, M>,
    expected: &Pencil<N, M>,
) -> (accepted: bool)
    ensures
        accepted == accepts_pencil(strict, *actual, *expected),
{
    (!strict || actual.id == expected.id) && actual.same_layout(expected)
}

} // verus!
