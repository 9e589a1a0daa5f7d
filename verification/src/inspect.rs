//! Those who check and clear the endpoint planes on the way back to real values.

use vstd::prelude::*;

use crate::array::ManyPencilArray;
use crate::endpoints::clear_mixed_planes;
use crate::endpoints::clear_planes;
use crate::endpoints::mixed_planes_done;
use crate::endpoints::planes_done;
use crate::error::FftError;
use crate::error::MixedError;
use crate::error::R2cError;
use crate::layout::Pencil;
use crate::mixed_r2c::MixedR2cCore;
use crate::r2c::TransformPlanCore;
use crate::scalar::Complex;
use crate::scalar::FftReal;
use crate::spectrum::gauge_answers;
use crate::spectrum::half_spectrum_checked;
use crate::spectrum::mixed_half_spectrum_checked;
use crate::spectrum::validate_boundary;
use crate::spectrum::validate_mixed_boundary;
use crate::spectrum::Gauge;

verus! {

/// Those who check and clear the endpoint planes of a half spectrum.
pub trait Inspector<R: FftReal, E, const N: usize, const M: usize> {
    /// They can work at all.
    spec fn able(&self) -> bool;

    /// They can work on values in this layout.
    spec fn admits(&self, pencil: Pencil<N, M>) -> bool;

    /// What the check comes to.
    spec fn finds(
        &self,
        complexes: ManyPencilArray<Complex<R>, N, M>,
        outcome: Result<(), E>,
    ) -> bool;

    /// What clearing comes to.
    spec fn clears(
        &self,
        before: ManyPencilArray<Complex<R>, N, M>,
        after: ManyPencilArray<Complex<R>, N, M>,
        outcome: Result<(), E>,
    ) -> bool;

    /// Checks that the endpoint planes are real enough.
    fn inspect(&self, complexes: &ManyPencilArray<Complex<R>, N, M>) -> (outcome: Result<(), E>)
        requires
            self.able(),
            complexes.wf(),
            forall|i: int|
                0 <= i < complexes.pencils@.len() ==> self.admits(#[trigger] complexes.pencils@[i]),
        ensures
            self.finds(*complexes, outcome),
    ;

    /// Clears the imaginary parts of the endpoint planes.
    fn clear(&self, complexes: &mut ManyPencilArray<Complex<R>, N, M>) -> (outcome: Result<(), E>)
        requires
            self.able(),
            old(complexes).wf(),
            forall|i: int|
                0 <= i < old(complexes).pencils@.len() ==> self.admits(
                    #[trigger] old(complexes).pencils@[i],
                ),
        ensures
            final(complexes).wf(),
            final(complexes).pencils == old(complexes).pencils,
            self.clears(*old(complexes), *final(complexes), outcome),
    ;
}

/// Those who check the planes of a real-to-complex plan.
pub struct HalfInspector<'a, S, A, X, U, Y, W, J, const N: usize, const M: usize> {
    /// The plan.
    pub core: &'a TransformPlanCore<N, M>,
    /// Tells whether all processes could go on.
    pub agree: &'a A,
    /// Compares values.
    pub gauge: &'a Gauge<X, U, Y, W, J>,
    /// Nothing was measured.
    pub zero: S,
    /// The first frequency of this process along the boundary's axis.
    pub start: usize,
}

impl<'a, R: FftReal, S: Copy, A: Fn(bool) -> bool, X: Fn(&S, S, usize, Complex<R>) -> S, U: Fn(S) -> S, Y: Fn(&S, S, usize, Complex<R>) -> S, W: Fn(S) -> S, J: Fn(S, S, S) -> bool, const N: usize, const M: usize> Inspector<R, R2cError, N, M> for HalfInspector<'a, S, A, X, U, Y, W, J, N, M> {
    open spec fn able(&self) -> bool {
        &&& self.core.wf()
        &&& forall|valid: bool| #[trigger] self.agree.requires((valid,))
        &&& gauge_answers::<S, Complex<R>, X, U, Y, W, J>(*self.gauge)
    }

    open spec fn admits(&self, pencil: Pencil<N, M>) -> bool {
        let axis = self.core.stages@[self.core.boundary as int].axis;
        pencil.wf() && axis < N && self.start + pencil.local_shape@[axis as int] <= usize::MAX
    }

    open spec fn finds(
        &self,
        complexes: ManyPencilArray<Complex<R>, N, M>,
        outcome: Result<(), R2cError>,
    ) -> bool {
        half_spectrum_checked::<R, S, A, X, U, Y, W, J, N, M>(
            *self.core,
            *self.agree,
            *self.gauge,
            self.zero,
            self.start,
            complexes,
            outcome,
        )
    }

    open spec fn clears(
        &self,
        before: ManyPencilArray<Complex<R>, N, M>,
        after: ManyPencilArray<Complex<R>, N, M>,
        outcome: Result<(), R2cError>,
    ) -> bool {
        planes_done(*self.core, self.start, before, after, outcome)
    }

    fn inspect(&self, complexes: &ManyPencilArray<Complex<R>, N, M>) -> (outcome: Result<
        (),
        R2cError,
    >) {
        validate_boundary(
            self.core,
            self.agree,
            self.gauge,
            self.zero,
            self.start,
            complexes,
        )
    }

    fn clear(&self, complexes: &mut ManyPencilArray<Complex<R>, N, M>) -> (outcome: Result<
        (),
        R2cError,
    >) {
        clear_planes(self.core, self.start, complexes)
    }
}

/// Those who check the planes of a mixed plan.
pub struct MixedInspector<'a, S, A, X, U, Y, W, J, const N: usize, const M: usize> {
    /// The plan.
    pub core: &'a MixedR2cCore<N, M>,
    /// Tells whether all processes could go on.
    pub agree: &'a A,
    /// Compares values.
    pub gauge: &'a Gauge<X, U, Y, W, J>,
    /// Nothing was measured.
    pub zero: S,
    /// Whether the tolerances could be computed.
    pub policy: Result<(), FftError>,
}

impl<'a, R: FftReal, S: Copy, A: Fn(bool) -> bool, X: Fn(&S, S, usize, Complex<R>) -> S, U: Fn(S) -> S, Y: Fn(&S, S, usize, Complex<R>) -> S, W: Fn(S) -> S, J: Fn(S, S, S) -> bool, const N: usize, const M: usize> Inspector<R, MixedError, N, M> for MixedInspector<'a, S, A, X, U, Y, W, J, N, M> {
    open spec fn able(&self) -> bool {
        &&& self.core.wf()
        &&& forall|valid: bool| #[trigger] self.agree.requires((valid,))
        &&& gauge_answers::<S, Complex<R>, X, U, Y, W, J>(*self.gauge)
    }

    open spec fn admits(&self, pencil: Pencil<N, M>) -> bool {
        pencil.wf()
    }

    open spec fn finds(
        &self,
        complexes: ManyPencilArray<Complex<R>, N, M>,
        outcome: Result<(), MixedError>,
    ) -> bool {
        mixed_half_spectrum_checked::<R, S, A, X, U, Y, W, J, N, M>(
            *self.core,
            *self.agree,
            *self.gauge,
            self.zero,
            self.policy,
            complexes,
            outcome,
        )
    }

    open spec fn clears(
        &self,
        before: ManyPencilArray<Complex<R>, N, M>,
        after: ManyPencilArray<Complex<R>, N, M>,
        outcome: Result<(), MixedError>,
    ) -> bool {
        mixed_planes_done(*self.core, before, after, outcome)
    }

    fn inspect(&self, complexes: &ManyPencilArray<Complex<R>, N, M>) -> (outcome: Result<
        (),
        MixedError,
    >) {
        validate_mixed_boundary(
            self.core,
            self.agree,
            self.gauge,
            self.zero,
            self.policy,
            complexes,
        )
    }

    fn clear(&self, complexes: &mut ManyPencilArray<Complex<R>, N, M>) -> (outcome: Result<
        (),
        MixedError,
    >) {
        clear_mixed_planes(self.core, complexes)
    }
}

} // verus!
