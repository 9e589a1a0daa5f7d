//! How the local work of a stage is applied to the arrays of an execution.

use vstd::prelude::*;

use crate::array::ManyPencilArray;
use crate::error::ArrayError;
use crate::error::Failure;
use crate::error::FftError;
use crate::layout::Pencil;
use crate::lines::copy_all;
use crate::registry::find_layout;
use crate::registry::has_layout;
use crate::registry::largest_local_len;
use crate::registry::lemma_largest_local_len;
use crate::stages::copied;

verus! {

/// The work of a stage that reads elements of one kind and writes those of another.
pub trait Station<A, B, E> {
    /// The work can be done.
    spec fn ready(&self) -> bool;

    /// What the work leaves behind, with a buffer of `line` elements for a source line.
    spec fn leaves(
        &self,
        source: Seq<A>,
        original: Seq<B>,
        result: Seq<B>,
        line: usize,
        outcome: Result<(), E>,
    ) -> bool;

    /// Does the work from `source` into `destination`.
    fn run(&self, source: &[A], destination: &mut [B], line: &mut Vec<A>) -> (outcome: Result<
        (),
        E,
    >)
        requires
            self.ready(),
        ensures
            final(line)@.len() == old(line)@.len(),
            final(destination)@.len() == old(destination)@.len(),
            self.leaves(
                source@,
                old(destination)@,
                final(destination)@,
                old(line)@.len() as usize,
                outcome,
            ),
    ;
}

/// The work of a stage that can also be done in place.
pub trait LocalStation<T, E>: Station<T, T, E> {
    /// Does the work in place.
    fn run_in_place(&self, data: &mut [T], line: &mut Vec<T>) -> (outcome: Result<(), E>)
        requires
            self.ready(),
        ensures
            final(line)@.len() == old(line)@.len(),
            final(data)@.len() == old(data)@.len(),
            self.leaves(
                old(data)@,
                old(data)@,
                final(data)@,
                old(line)@.len() as usize,
                outcome,
            ),
    ;
}

/// The registered layout like `pencil`, if there is one.
pub open spec fn layout_index<const N: usize, const M: usize>(
    pencils: Seq<Pencil<N, M>>,
    pencil: Pencil<N, M>,
    index: int,
) -> bool {
    &&& 0 <= index < pencils.len()
    &&& pencils[index].spec_same_layout(&pencil)
}

/// Elements of a registered layout.
pub open spec fn layout_len<T, const N: usize, const M: usize>(
    array: ManyPencilArray<T, N, M>,
    index: int,
) -> int {
    array.pencils@[index].local_len * array.extra_shape.element_count
}

/// Everything but the elements and the active layout is as before.
pub open spec fn same_registry<T, const N: usize, const M: usize>(
    before: ManyPencilArray<T, N, M>,
    after: ManyPencilArray<T, N, M>,
) -> bool {
    after.pencils == before.pencils && after.extra_shape == before.extra_shape
}

/// The front of the storage was written, and the rest is as before.
pub open spec fn front_written<T, const N: usize, const M: usize>(
    before: ManyPencilArray<T, N, M>,
    after: ManyPencilArray<T, N, M>,
    len: int,
) -> bool {
    &&& after.storage@.len() == before.storage@.len()
    &&& after.storage@.subrange(len, after.storage@.len() as int) == before.storage@.subrange(
        len,
        before.storage@.len() as int,
    )
}

proof fn lemma_layout_fits<T, const N: usize, const M: usize>(
    array: ManyPencilArray<T, N, M>,
    index: int,
)
    requires
        array.wf(),
        0 <= index < array.pencils@.len(),
    ensures
        0 <= layout_len(array, index) <= array.storage@.len(),
{
    lemma_largest_local_len(array.pencils@);
    let own = array.pencils@[index].local_len as int;
    let largest = largest_local_len(array.pencils@) as int;
    let extra = array.extra_shape.element_count as int;
    assert(0 <= own * extra <= largest * extra) by (nonlinear_arith)
        requires
            0 <= own <= largest,
            0 <= extra,
    ;
}

/// What overwriting an array with the result of a stage comes to. Without a registered layout
/// like `pencil` nothing happens; otherwise the layout is active if the work succeeded, and the
/// array is poisoned if it did not.
pub open spec fn entered<A, B, E: Failure, S: Station<A, B, E>, const N: usize, const M: usize>(
    station: S,
    source: Seq<A>,
    before: ManyPencilArray<B, N, M>,
    after: ManyPencilArray<B, N, M>,
    pencil: Pencil<N, M>,
    line: usize,
    outcome: Result<(), E>,
) -> bool {
    &&& same_registry(before, after)
    &&& if !has_layout(before.pencils@, pencil) {
        &&& outcome == Err::<(), E>(
            E::spec_of_fft(FftError::Array(ArrayError::IncompatiblePencils)),
        )
        &&& after == before
    } else {
        exists|index: int|
            {
                &&& #[trigger] layout_index(before.pencils@, pencil, index)
                &&& station.leaves(
                    source,
                    before.storage@.subrange(0, layout_len(before, index)),
                    after.storage@.subrange(0, layout_len(before, index)),
                    line,
                    outcome,
                )
                &&& front_written(before, after, layout_len(before, index))
                &&& after.active == if outcome is Ok {
                    Some(index as usize)
                } else {
                    None
                }
            }
    }
}

/// Overwrites an array with the result of a stage in the layout `pencil`.
pub fn enter<A, B, E: Failure, S: Station<A, B, E>, const N: usize, const M: usize>(
    station: &S,
    source: &[A],
    array: &mut ManyPencilArray<B, N, M>,
    pencil: &Pencil<N, M>,
    line: &mut Vec<A>,
) -> (outcome: Result<(), E>)
    requires
        station.ready(),
        old(array).wf(),
    ensures
        final(line)@.len() == old(line)@.len(),
        final(array).wf(),
        entered::<A, B, E, S, N, M>(
            *station,
            source@,
            *old(array),
            *final(array),
            *pencil,
            old(line)@.len() as usize,
            outcome,
        ),
{
    let ghost before = *array;
    let index: usize = match find_layout(&array.pencils, pencil) {
        Some(index) => index,
        None => {
            return Err(E::of_fft(FftError::Array(ArrayError::IncompatiblePencils)));
        },
    };
    proof {
        lemma_layout_fits(before, index as int);
    }
    let available: usize = array.storage.len();
    assert(before.storage@.len() == available);
    let len: usize = array.pencils[index].local_len * array.extra_shape.element_count;
    array.active = None;
    let (view, _rest) = array.storage.as_mut_slice().split_at_mut(len);
    let outcome: Result<(), E> = station.run(source, view, line);
    let ghost written = view@;
    if outcome.is_ok() {
        array.active = Some(index);
    }
    proof {
        assert(layout_index(before.pencils@, *pencil, index as int));
        assert(array.storage@.subrange(0, len as int) =~= written);
        assert(array.storage@.subrange(len as int, array.storage@.len() as int)
            =~= before.storage@.subrange(len as int, before.storage@.len() as int));
    }
    outcome
}

/// What applying a stage to the active elements of an array comes to.
pub open spec fn applied<T, E: Failure, S: Station<T, T, E>, const N: usize, const M: usize>(
    station: S,
    before: ManyPencilArray<T, N, M>,
    after: ManyPencilArray<T, N, M>,
    line: usize,
    outcome: Result<(), E>,
) -> bool {
    &&& same_registry(before, after)
    &&& after.active == before.active
    &&& match before.active {
        None => outcome == Err::<(), E>(E::spec_of_fft(FftError::Array(ArrayError::Poisoned)))
            && after == before,
        Some(_) => {
            &&& station.leaves(
                before.storage@.subrange(0, before.active_len()),
                before.storage@.subrange(0, before.active_len()),
                after.storage@.subrange(0, before.active_len()),
                line,
                outcome,
            )
            &&& front_written(before, after, before.active_len())
        },
    }
}

/// Applies a stage to the active elements of an array.
pub fn apply<T, E: Failure, S: LocalStation<T, E>, const N: usize, const M: usize>(
    station: &S,
    array: &mut ManyPencilArray<T, N, M>,
    line: &mut Vec<T>,
) -> (outcome: Result<(), E>)
    requires
        station.ready(),
        old(array).wf(),
    ensures
        final(line)@.len() == old(line)@.len(),
        final(array).wf(),
        applied::<T, E, S, N, M>(
            *station,
            *old(array),
            *final(array),
            old(line)@.len() as usize,
            outcome,
        ),
{
    let ghost before = *array;
    proof {
        if before.active is Some {
            before.lemma_active_fits();
        }
    }
    match array.active_view_mut() {
        Err(error) => Err(E::of_fft(FftError::Array(error))),
        Ok(view) => {
            let outcome: Result<(), E> = station.run_in_place(view, line);
            let ghost written = view@;
            proof {
                let len = before.active_len();
                assert(array.storage@.subrange(0, len) =~= written);
                assert(array.storage@.subrange(len, array.storage@.len() as int)
                    =~= before.storage@.subrange(len, before.storage@.len() as int));
            }
            outcome
        },
    }
}

/// What taking the active elements of an array through a stage comes to.
pub open spec fn departed<A, B, E: Failure, S: Station<A, B, E>, const N: usize, const M: usize>(
    station: S,
    array: ManyPencilArray<A, N, M>,
    original: Seq<B>,
    result: Seq<B>,
    line: usize,
    outcome: Result<(), E>,
) -> bool {
    match array.active {
        None => outcome == Err::<(), E>(E::spec_of_fft(FftError::Array(ArrayError::Poisoned)))
            && result == original,
        Some(_) => station.leaves(
            array.storage@.subrange(0, array.active_len()),
            original,
            result,
            line,
            outcome,
        ),
    }
}

/// Takes the active elements of an array through a stage.
pub fn depart<A, B, E: Failure, S: Station<A, B, E>, const N: usize, const M: usize>(
    station: &S,
    array: &ManyPencilArray<A, N, M>,
    destination: &mut [B],
    line: &mut Vec<A>,
) -> (outcome: Result<(), E>)
    requires
        station.ready(),
        array.wf(),
    ensures
        final(line)@.len() == old(line)@.len(),
        final(destination)@.len() == old(destination)@.len(),
        departed::<A, B, E, S, N, M>(
            *station,
            *array,
            old(destination)@,
            final(destination)@,
            old(line)@.len() as usize,
            outcome,
        ),
{
    match array.active_view() {
        Err(error) => Err(E::of_fft(FftError::Array(error))),
        Ok(view) => station.run(view, destination, line),
    }
}

/// A stage that copies.
#[derive(Clone, Copy, Debug)]
pub struct CopyStation {
}

impl<T: Copy, E: Failure> Station<T, T, E> for CopyStation {
    open spec fn ready(&self) -> bool {
        true
    }

    open spec fn leaves(
        &self,
        source: Seq<T>,
        original: Seq<T>,
        result: Seq<T>,
        line: usize,
        outcome: Result<(), E>,
    ) -> bool {
        &&& copied(source, original, result, outcome is Ok)
        &&& outcome is Err ==> outcome->Err_0 == E::spec_of_fft(FftError::PreparationFailed)
    }

    fn run(&self, source: &[T], destination: &mut [T], line: &mut Vec<T>) -> (outcome: Result<
        (),
        E,
    >) {
        if source.len() != destination.len() {
            return Err(E::of_fft(FftError::PreparationFailed));
        }
        copy_all(source, destination);
        Ok(())
    }
}

impl<T: Copy, E: Failure> LocalStation<T, E> for CopyStation {
    fn run_in_place(&self, data: &mut [T], line: &mut Vec<T>) -> (outcome: Result<(), E>) {
        Ok(())
    }
}

} // verus!
