//! Which kernels run in which direction: the plain ones there, and on the way back those that
//! divide by the lengths or those that do not.

use vstd::prelude::*;

use crate::array::PencilArray;
use crate::crew_mixed_c2c::MixedC2cCrew;
use crate::crew_mixed_c2c::MixedC2cInPlaceCrew;
use crate::crew_mixed_r2c::MixedR2cForwardCrew;
use crate::crew_mixed_r2c::MixedR2cReverseCrew;
use crate::crew_mixed_r2c_ip::MixedR2cInPlaceForwardCrew;
use crate::crew_mixed_r2c_ip::MixedR2cInPlaceReverseCrew;
use crate::crew_r2c::R2cForwardCrew;
use crate::crew_r2c::R2cReverseCrew;
use crate::crew_r2c_ip::R2cInPlaceForwardCrew;
use crate::crew_r2c_ip::R2cInPlaceReverseCrew;
use crate::crew_r2r::R2rCrew;
use crate::crew_r2r::R2rInPlaceCrew;
use crate::layout::Direction;
use crate::mixed_c2c::MixedC2cCore;
use crate::mixed_r2c::MixedR2cCore;
use crate::r2c::TransformPlanCore;
use crate::r2r::R2rCore;
use crate::scalar::Complex;
use crate::scalar::FftReal;
use crate::scalar::R2rScalar;

verus! {

/// What runs in each direction.
#[derive(Debug)]
pub struct Ways<K> {
    /// There.
    pub forward: K,
    /// Back, divided by the lengths.
    pub inverse: K,
    /// Back, not divided.
    pub backward: K,
}

impl<K> Ways<K> {
    /// What runs in a direction.
    pub open spec fn spec_along(self, direction: Direction) -> K {
        match direction {
            Direction::Forward => self.forward,
            Direction::Inverse => self.inverse,
            Direction::Backward => self.backward,
        }
    }

    /// Returns what runs in a direction.
    pub fn along(&self, direction: Direction) -> (way: &K)
        ensures
            *way == self.spec_along(direction),
    {
        match direction {
            Direction::Forward => &self.forward,
            Direction::Inverse => &self.inverse,
            Direction::Backward => &self.backward,
        }
    }
}

/// What runs on each way back.
#[derive(Debug)]
pub struct WaysHome<K> {
    /// Divided by the lengths.
    pub inverse: K,
    /// Not divided.
    pub backward: K,
}

impl<K> WaysHome<K> {
    /// What runs on the way back in a direction.
    pub open spec fn spec_along(self, direction: Direction) -> K {
        if direction == Direction::Inverse {
            self.inverse
        } else {
            self.backward
        }
    }

    /// Returns what runs on the way back in a direction.
    pub fn along(&self, direction: Direction) -> (way: &K)
        ensures
            *way == self.spec_along(direction),
    {
        if direction == Direction::Inverse {
            &self.inverse
        } else {
            &self.backward
        }
    }
}

impl<'a, T: R2rScalar, F, X, const N: usize, const M: usize> R2rCrew<'a, T, F, X, N, M> {
    /// Those who do the steps of a real-to-real or Hartley plan, out of place: the kernels are those
    /// of the direction.
    pub fn enlist(
        core: &'a R2rCore<N, M>,
        direction: Direction,
        kernels: &'a Ways<Vec<F>>,
        exchange: &'a X,
        source: &'a PencilArray<T, N, M>,
    ) -> (crew: Self)
        ensures
            *crew.core == *core,
            crew.direction == direction,
            *crew.kernels == kernels.spec_along(direction),
            *crew.exchange == *exchange,
            *crew.source == *source,
    {
        R2rCrew {
            core,
            direction,
            kernels: kernels.along(direction),
            exchange,
            source,
        }
    }
}

impl<'a, F, X, const N: usize, const M: usize> R2rInPlaceCrew<'a, F, X, N, M> {
    /// Those who do the steps of a real-to-real or Hartley plan, in place: the kernels are those of
    /// the direction.
    pub fn enlist(
        core: &'a R2rCore<N, M>,
        direction: Direction,
        kernels: &'a Ways<Vec<F>>,
        exchange: &'a X,
    ) -> (crew: Self)
        ensures
            *crew.core == *core,
            crew.direction == direction,
            *crew.kernels == kernels.spec_along(direction),
            *crew.exchange == *exchange,
    {
        R2rInPlaceCrew {
            core,
            direction,
            kernels: kernels.along(direction),
            exchange,
        }
    }
}

impl<'a, R, F, X, const N: usize, const M: usize> MixedC2cCrew<'a, R, F, X, N, M> {
    /// Those who do the steps of a mixed complex plan, out of place: the kernels are those of the
    /// direction.
    pub fn enlist(
        core: &'a MixedC2cCore<N, M>,
        direction: Direction,
        kernels: &'a Ways<Vec<F>>,
        exchange: &'a X,
        source: &'a PencilArray<Complex<R>, N, M>,
    ) -> (crew: Self)
        ensures
            *crew.core == *core,
            crew.direction == direction,
            *crew.kernels == kernels.spec_along(direction),
            *crew.exchange == *exchange,
            *crew.source == *source,
    {
        MixedC2cCrew {
            core,
            direction,
            kernels: kernels.along(direction),
            exchange,
            source,
        }
    }
}

impl<'a, F, X, const N: usize, const M: usize> MixedC2cInPlaceCrew<'a, F, X, N, M> {
    /// Those who do the steps of a mixed complex plan, in place: the kernels are those of the
    /// direction.
    pub fn enlist(
        core: &'a MixedC2cCore<N, M>,
        direction: Direction,
        kernels: &'a Ways<Vec<F>>,
        exchange: &'a X,
    ) -> (crew: Self)
        ensures
            *crew.core == *core,
            crew.direction == direction,
            *crew.kernels == kernels.spec_along(direction),
            *crew.exchange == *exchange,
    {
        MixedC2cInPlaceCrew {
            core,
            direction,
            kernels: kernels.along(direction),
            exchange,
        }
    }
}

impl<'a, R: FftReal, FX, FC, XR, XC, const N: usize, const M: usize> R2cForwardCrew<'a, R, FX, FC, XR, XC, N, M> {
    /// Those who do the steps of the way there of a real-to-complex plan, out of place: the kernels
    /// are those of the direction.
    pub fn enlist(
        core: &'a TransformPlanCore<N, M>,
        crossing: &'a FX,
        kernels: &'a Ways<Vec<FC>>,
        real_exchange: &'a XR,
        exchange: &'a XC,
        source: &'a PencilArray<R, N, M>,
    ) -> (crew: Self)
        ensures
            *crew.core == *core,
            *crew.crossing == *crossing,
            *crew.kernels == kernels.spec_along(Direction::Forward),
            *crew.real_exchange == *real_exchange,
            *crew.exchange == *exchange,
            *crew.source == *source,
    {
        R2cForwardCrew {
            core,
            crossing,
            kernels: kernels.along(Direction::Forward),
            real_exchange,
            exchange,
            source,
        }
    }
}

impl<'a, R: FftReal, FX, FC, XR, XC, V, const N: usize, const M: usize> R2cReverseCrew<'a, R, FX, FC, XR, XC, V, N, M> {
    /// Those who do the steps of the way back of a real-to-complex plan, out of place: the kernels
    /// are those of the direction.
    pub fn enlist(
        core: &'a TransformPlanCore<N, M>,
        direction: Direction,
        crossing: &'a WaysHome<FX>,
        kernels: &'a Ways<Vec<FC>>,
        real_exchange: &'a XR,
        exchange: &'a XC,
        inspector: &'a V,
        source: &'a PencilArray<Complex<R>, N, M>,
    ) -> (crew: Self)
        ensures
            *crew.core == *core,
            crew.direction == direction,
            *crew.crossing == crossing.spec_along(direction),
            *crew.kernels == kernels.spec_along(direction),
            *crew.real_exchange == *real_exchange,
            *crew.exchange == *exchange,
            *crew.inspector == *inspector,
            *crew.source == *source,
    {
        R2cReverseCrew {
            core,
            direction,
            crossing: crossing.along(direction),
            kernels: kernels.along(direction),
            real_exchange,
            exchange,
            inspector,
            source,
        }
    }
}

impl<'a, FX, FC, XR, XC, const N: usize, const M: usize> R2cInPlaceForwardCrew<'a, FX, FC, XR, XC, N, M> {
    /// Those who do the steps of the way there of a real-to-complex plan, in place: the kernels are
    /// those of the direction.
    pub fn enlist(
        core: &'a TransformPlanCore<N, M>,
        crossing: &'a FX,
        kernels: &'a Ways<Vec<FC>>,
        real_exchange: &'a XR,
        exchange: &'a XC,
    ) -> (crew: Self)
        ensures
            *crew.core == *core,
            *crew.crossing == *crossing,
            *crew.kernels == kernels.spec_along(Direction::Forward),
            *crew.real_exchange == *real_exchange,
            *crew.exchange == *exchange,
    {
        R2cInPlaceForwardCrew {
            core,
            crossing,
            kernels: kernels.along(Direction::Forward),
            real_exchange,
            exchange,
        }
    }
}

impl<'a, FX, FC, XR, XC, V, const N: usize, const M: usize> R2cInPlaceReverseCrew<'a, FX, FC, XR, XC, V, N, M> {
    /// Those who do the steps of the way back of a real-to-complex plan, in place: the kernels are
    /// those of the direction.
    pub fn enlist(
        core: &'a TransformPlanCore<N, M>,
        direction: Direction,
        crossing: &'a WaysHome<FX>,
        kernels: &'a Ways<Vec<FC>>,
        real_exchange: &'a XR,
        exchange: &'a XC,
        inspector: &'a V,
    ) -> (crew: Self)
        ensures
            *crew.core == *core,
            crew.direction == direction,
            *crew.crossing == crossing.spec_along(direction),
            *crew.kernels == kernels.spec_along(direction),
            *crew.real_exchange == *real_exchange,
            *crew.exchange == *exchange,
            *crew.inspector == *inspector,
    {
        R2cInPlaceReverseCrew {
            core,
            direction,
            crossing: crossing.along(direction),
            kernels: kernels.along(direction),
            real_exchange,
            exchange,
            inspector,
        }
    }
}

impl<'a, R: FftReal, FR, FX, FC, XR, XC, const N: usize, const M: usize> MixedR2cForwardCrew<'a, R, FR, FX, FC, XR, XC, N, M> {
    /// Those who do the steps of the way there of a mixed real-to-complex plan, out of place: the
    /// kernels are those of the direction.
    pub fn enlist(
        core: &'a MixedR2cCore<N, M>,
        prefixes: &'a Ways<Vec<FR>>,
        crossing: &'a FX,
        kernels: &'a Ways<Vec<FC>>,
        real_exchange: &'a XR,
        exchange: &'a XC,
        source: &'a PencilArray<R, N, M>,
    ) -> (crew: Self)
        ensures
            *crew.core == *core,
            *crew.prefixes == prefixes.spec_along(Direction::Forward),
            *crew.crossing == *crossing,
            *crew.kernels == kernels.spec_along(Direction::Forward),
            *crew.real_exchange == *real_exchange,
            *crew.exchange == *exchange,
            *crew.source == *source,
    {
        MixedR2cForwardCrew {
            core,
            prefixes: prefixes.along(Direction::Forward),
            crossing,
            kernels: kernels.along(Direction::Forward),
            real_exchange,
            exchange,
            source,
        }
    }
}

impl<'a, R: FftReal, FR, FX, FC, XR, XC, V, const N: usize, const M: usize> MixedR2cReverseCrew<'a, R, FR, FX, FC, XR, XC, V, N, M> {
    /// Those who do the steps of the way back of a mixed real-to-complex plan, out of place: the
    /// kernels are those of the direction.
    pub fn enlist(
        core: &'a MixedR2cCore<N, M>,
        direction: Direction,
        prefixes: &'a Ways<Vec<FR>>,
        crossing: &'a WaysHome<FX>,
        kernels: &'a Ways<Vec<FC>>,
        real_exchange: &'a XR,
        exchange: &'a XC,
        inspector: &'a V,
        source: &'a PencilArray<Complex<R>, N, M>,
    ) -> (crew: Self)
        ensures
            *crew.core == *core,
            crew.direction == direction,
            *crew.prefixes == prefixes.spec_along(direction),
            *crew.crossing == crossing.spec_along(direction),
            *crew.kernels == kernels.spec_along(direction),
            *crew.real_exchange == *real_exchange,
            *crew.exchange == *exchange,
            *crew.inspector == *inspector,
            *crew.source == *source,
    {
        MixedR2cReverseCrew {
            core,
            direction,
            prefixes: prefixes.along(direction),
            crossing: crossing.along(direction),
            kernels: kernels.along(direction),
            real_exchange,
            exchange,
            inspector,
            source,
        }
    }
}

impl<'a, FR, FX, FC, XR, XC, const N: usize, const M: usize> MixedR2cInPlaceForwardCrew<'a, FR, FX, FC, XR, XC, N, M> {
    /// Those who do the steps of the way there of a mixed real-to-complex plan, in place: the kernels
    /// are those of the direction.
    pub fn enlist(
        core: &'a MixedR2cCore<N, M>,
        prefixes: &'a Ways<Vec<FR>>,
        crossing: &'a FX,
        kernels: &'a Ways<Vec<FC>>,
        real_exchange: &'a XR,
        exchange: &'a XC,
    ) -> (crew: Self)
        ensures
            *crew.core == *core,
            *crew.prefixes == prefixes.spec_along(Direction::Forward),
            *crew.crossing == *crossing,
            *crew.kernels == kernels.spec_along(Direction::Forward),
            *crew.real_exchange == *real_exchange,
            *crew.exchange == *exchange,
    {
        MixedR2cInPlaceForwardCrew {
            core,
            prefixes: prefixes.along(Direction::Forward),
            crossing,
            kernels: kernels.along(Direction::Forward),
            real_exchange,
            exchange,
        }
    }
}

impl<'a, FR, FX, FC, XR, XC, V, const N: usize, const M: usize> MixedR2cInPlaceReverseCrew<'a, FR, FX, FC, XR, XC, V, N, M> {
    /// Those who do the steps of the way back of a mixed real-to-complex plan, in place: the kernels
    /// are those of the direction.
    pub fn enlist(
        core: &'a MixedR2cCore<N, M>,
        direction: Direction,
        prefixes: &'a Ways<Vec<FR>>,
        crossing: &'a WaysHome<FX>,
        kernels: &'a Ways<Vec<FC>>,
        real_exchange: &'a XR,
        exchange: &'a XC,
        inspector: &'a V,
    ) -> (crew: Self)
        ensures
            *crew.core == *core,
            crew.direction == direction,
            *crew.prefixes == prefixes.spec_along(direction),
            *crew.crossing == crossing.spec_along(direction),
            *crew.kernels == kernels.spec_along(direction),
            *crew.real_exchange == *real_exchange,
            *crew.exchange == *exchange,
            *crew.inspector == *inspector,
    {
        MixedR2cInPlaceReverseCrew {
            core,
            direction,
            prefixes: prefixes.along(direction),
            crossing: crossing.along(direction),
            kernels: kernels.along(direction),
            real_exchange,
            exchange,
            inspector,
        }
    }
}

} // verus!
