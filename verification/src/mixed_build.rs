//! What the constructions of both kinds of mixed plans share.

use vstd::prelude::*;

use crate::error::BackendInitError;
use crate::error::FftError;
use crate::error::MixedError;
use crate::layout::ExtraShape;
use crate::layout::FourierDirections;
use crate::local::AxisTransform;
use crate::local::BackendChoice;
use crate::mixed_prepare::MixedGraph;
use crate::words::mixed_descriptor_len;
use crate::words::spec_mixed_descriptor_len;
use crate::words::Operation;
use crate::words::PlanFamily;
use crate::world::lifted;
use crate::world::settled;

verus! {

/// What is asked of a mixed plan: what it does along the axes, and whether arrays must have its
/// very layouts.
#[derive(Clone, Copy, Debug)]
pub struct MixedAsk<const N: usize> {
    /// What the plan does along each axis, and with which kernels.
    pub graph: MixedGraph<N>,
    /// Whether it is rebuilt from another plan, so that arrays of that plan are told apart.
    pub rebuilt: bool,
}

impl<const N: usize> MixedAsk<N> {
    /// All signs are forward, the kernels are the portable ones, and the plan is a new one.
    pub open spec fn plain(&self, transforms: [AxisTransform; N]) -> bool {
        &&& self.graph.transforms == transforms
        &&& forward_signs(self.graph.directions)
        &&& self.graph.backend == BackendChoice::RustFft
        &&& !self.rebuilt
    }

    /// Arrays must have the very layouts of the plan.
    pub open spec fn spec_strict(&self) -> bool {
        self.rebuilt || self.graph.backend is Fftw
    }

    /// Tells whether arrays must have the very layouts of the plan.
    pub fn strict(&self) -> (strict: bool)
        ensures
            strict == self.spec_strict(),
    {
        let native: bool = match self.graph.backend {
            BackendChoice::Fftw(_) => true,
            BackendChoice::RustFft => false,
        };
        self.rebuilt || native
    }

    /// Asks for a new plan with forward signs and the portable kernels.
    pub fn of_transforms(transforms: [AxisTransform; N]) -> (ask: MixedAsk<N>)
        ensures
            ask.plain(transforms),
    {
        MixedAsk {
            graph: MixedGraph {
                transforms,
                directions: FourierDirections::default(),
                backend: BackendChoice::RustFft,
            },
            rebuilt: false,
        }
    }
}

/// Every axis has the forward sign.
pub open spec fn forward_signs<const N: usize>(directions: FourierDirections<N>) -> bool {
    forall|axis: int|
        0 <= axis < N ==> #[trigger] directions.0@[axis]
            == crate::layout::FourierDirection::Forward
}

/// What is known of a mixed plan before it is built, besides the request.
#[derive(Clone, Copy, Debug)]
pub struct MixedFacts<const M: usize> {
    /// Tells the plan from others.
    pub id: u64,
    /// The extents of the process grid.
    pub process_grid: [usize; M],
    /// Bytes of a real scalar.
    pub scalar_bytes: usize,
    /// The words that describe the kernels.
    pub backend_words: [u64; 7],
}

/// The operation of a construction.
pub open spec fn spec_plan_operation(family: PlanFamily, backend: BackendChoice) -> Operation {
    match backend {
        BackendChoice::RustFft => Operation::Plan { family },
        BackendChoice::Fftw(_) => Operation::PlanNative { family },
    }
}

/// Returns the operation of a construction.
pub fn plan_operation(family: PlanFamily, backend: BackendChoice) -> (operation: Operation)
    ensures
        operation == spec_plan_operation(family, backend),
{
    match backend {
        BackendChoice::RustFft => Operation::Plan { family },
        BackendChoice::Fftw(_) => Operation::PlanNative { family },
    }
}

/// Words of a whole mixed descriptor, if they can be counted.
pub open spec fn full_len(n: int, m: int, extra: int) -> Option<usize> {
    match spec_mixed_descriptor_len(n, m, extra) {
        Some(len) => if len + n + 7 <= usize::MAX {
            Some((len + n + 7) as usize)
        } else {
            None
        },
        None => None,
    }
}

/// Returns the words of a whole mixed descriptor.
pub fn full_descriptor_len<const N: usize, const M: usize>(extra: &ExtraShape) -> (len: Option<usize>)
    ensures
        len == full_len(N as int, M as int, extra.dimensions@.len() as int),
{
    match mixed_descriptor_len::<N, M>(extra) {
        Some(len) => match len.checked_add(N) {
            Some(with_signs) => with_signs.checked_add(7),
            None => None,
        },
        None => None,
    }
}

/// An outcome of this process as one of a construction with a chosen backend.
pub open spec fn localized<V>(outcome: Result<V, MixedError>) -> Result<V, BackendInitError<MixedError>> {
    match outcome {
        Ok(value) => Ok(value),
        Err(error) => Err(BackendInitError::Local(error)),
    }
}

/// Turns an outcome of this process into one of a construction with a chosen backend.
pub fn localize<V>(outcome: Result<V, MixedError>) -> (result: Result<V, BackendInitError<MixedError>>)
    ensures
        result == localized(outcome),
{
    match outcome {
        Ok(value) => Ok(value),
        Err(error) => Err(BackendInitError::Local(error)),
    }
}

/// A list that there was no room for, here or elsewhere.
pub open spec fn list_refused<V, A: Fn(bool) -> bool>(
    agree: A,
    required: int,
    granted: bool,
    error: BackendInitError<MixedError>,
) -> bool {
    exists|local: Result<V, FftError>|
        {
            &&& #[trigger] settled::<V, BackendInitError<MixedError>, A>(
                agree,
                lifted(local),
                Err(error),
            )
            &&& local is Ok <==> granted
            &&& local is Err ==> local->Err_0 == (FftError::AllocationFailed {
                required: required as usize,
            })
        }
}

/// What preparing kernels comes to once all processes have told whether they could.
pub open spec fn peer_settled<V, A: Fn(bool) -> bool>(
    agree: A,
    local: Result<V, BackendInitError<MixedError>>,
    outcome: Result<V, BackendInitError<MixedError>>,
) -> bool {
    exists|all_valid: bool|
        {
            &&& #[trigger] agree.ensures((local is Ok,), all_valid)
            &&& outcome == match local {
                Err(error) => Err::<V, BackendInitError<MixedError>>(error),
                Ok(value) => if all_valid {
                    Ok(value)
                } else {
                    Err(BackendInitError::PeerPreflight)
                },
            }
        }
}

/// Asks whether all processes could prepare their kernels.
pub fn peer_settle<V, A: Fn(bool) -> bool>(
    agree: &A,
    local: Result<V, BackendInitError<MixedError>>,
) -> (outcome: Result<V, BackendInitError<MixedError>>)
    requires
        forall|valid: bool| #[trigger] agree.requires((valid,)),
    ensures
        peer_settled(*agree, local, outcome),
        outcome is Ok ==> outcome == local,
{
    let all_valid: bool = agree(local.is_ok());
    match local {
        Err(error) => Err(error),
        Ok(value) => if all_valid {
            Ok(value)
        } else {
            Err(BackendInitError::PeerPreflight)
        },
    }
}

} // verus!
