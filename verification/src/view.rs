//! The elements of the active layout of a registered array.

use vstd::prelude::*;

use vstd::slice::slice_subrange;

use crate::array::ManyPencilArray;
use crate::error::ArrayError;
use crate::registry::largest_local_len;
use crate::registry::lemma_largest_local_len;

verus! {

impl<T, const N: usize, const M: usize> ManyPencilArray<T, N, M> {
    /// Elements of the active layout.
    pub open spec fn active_len(&self) -> int
        recommends
            self.active is Some,
    {
        self.pencils@[self.active->0 as int].local_len * self.extra_shape.element_count
    }

    /// The active elements lie within the storage.
    pub proof fn lemma_active_fits(&self)
        requires
            self.wf(),
            self.active is Some,
        ensures
            0 <= self.active_len() <= self.storage@.len(),
    {
        lemma_largest_local_len(self.pencils@);
        let active = self.pencils@[self.active->0 as int].local_len as int;
        let largest = largest_local_len(self.pencils@) as int;
        let extra = self.extra_shape.element_count as int;
        assert(0 <= active * extra <= largest * extra) by (nonlinear_arith)
            requires
                0 <= active <= largest,
                0 <= extra,
        ;
    }

    fn count_active(&self, index: usize) -> (len: usize)
        requires
            self.wf(),
            self.active == Some(index),
        ensures
            len == self.active_len(),
            len <= self.storage@.len(),
    {
        let available: usize = self.storage.len();
        proof {
            self.lemma_active_fits();
            assert(self.storage@.len() == available);
        }
        self.pencils[index].local_len * self.extra_shape.element_count
    }

    /// Returns the elements of the active layout.
    pub fn active_view(&self) -> (result: Result<&[T], ArrayError>)
        requires
            self.wf(),
        ensures
            match result {
                Ok(view) => self.active is Some && view@ == self.storage@.subrange(
                    0,
                    self.active_len(),
                ),
                Err(error) => self.active is None && error == ArrayError::Poisoned,
            },
    {
        match self.active {
            None => Err(ArrayError::Poisoned),
            Some(index) => {
                let len: usize = self.count_active(index);
                Ok(slice_subrange(self.storage.as_slice(), 0, len))
            },
        }
    }

    /// Returns the elements of the active layout for writing. The rest of the storage stays.
    pub fn active_view_mut(&mut self) -> (result: Result<&mut [T], ArrayError>)
        requires
            old(self).wf(),
        ensures
            final(self).pencils == old(self).pencils,
            final(self).extra_shape == old(self).extra_shape,
            final(self).active == old(self).active,
            match result {
                Ok(view) => {
                    &&& old(self).active is Some
                    &&& view@ == old(self).storage@.subrange(0, old(self).active_len())
                    &&& final(self).storage@ == final(view)@ + old(self).storage@.subrange(
                        old(self).active_len(),
                        old(self).storage@.len() as int,
                    )
                },
                Err(error) => {
                    &&& old(self).active is None
                    &&& error == ArrayError::Poisoned
                    &&& final(self).storage == old(self).storage
                },
            },
    {
        match self.active {
            None => Err(ArrayError::Poisoned),
            Some(index) => {
                let len: usize = self.count_active(index);
                let (view, _rest) = self.storage.as_mut_slice().split_at_mut(len);
                Ok(view)
            },
        }
    }
}

} // verus!
