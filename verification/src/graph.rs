//! Which transforms may stand on which axes.

use vstd::prelude::*;

use crate::error::FftError;
use crate::error::LocalR2rError;
use crate::error::MixedError;
use crate::error::R2rError;
use crate::layout::FourierDirection;
use crate::layout::FourierDirections;
use crate::layout::Pencil;
use crate::local::AxisTransform;
use crate::local::R2rKind;

verus! {

/// Checks that a mixed complex plan has no real-to-complex boundary.
pub fn validate_c2c_graph<const N: usize>(transforms: [AxisTransform; N]) -> (result: Result<
    (),
    MixedError,
>)
    ensures
        result is Ok <==> forall|axis: int|
            0 <= axis < N ==> #[trigger] transforms@[axis] != AxisTransform::Rfft,
        result is Err ==> result->Err_0 == MixedError::InvalidGraph,
{
    let mut axis: usize = 0;
    while axis < N
        invariant
            axis <= N,
            forall|a: int| 0 <= a < axis ==> #[trigger] transforms@[a] != AxisTransform::Rfft,
        decreases N - axis,
    {
        match transforms[axis] {
            AxisTransform::Rfft => {
                assert(transforms@[axis as int] == AxisTransform::Rfft);
                return Err(MixedError::InvalidGraph);
            },
            _ => {},
        }
        axis += 1;
    }
    Ok(())
}

/// What may stand on `axis` of a mixed real-to-complex plan with its boundary on `boundary`:
/// only real transforms behind it, no second boundary before it.
pub open spec fn axis_allowed(transform: AxisTransform, axis: int, boundary: int) -> bool {
    if axis == boundary {
        transform == AxisTransform::Rfft
    } else if axis > boundary {
        transform == AxisTransform::Unchanged || transform is R2r
    } else {
        transform == AxisTransform::Unchanged || transform == AxisTransform::Fft || transform is R2r
    }
}

/// The axis graph of a mixed real-to-complex plan with its boundary on `boundary`.
pub open spec fn r2c_graph(
    global_shape: Seq<usize>,
    transforms: Seq<AxisTransform>,
    boundary: int,
) -> bool {
    &&& 0 <= boundary < transforms.len()
    &&& forall|axis: int|
        0 <= axis < transforms.len() ==> axis_allowed(#[trigger] transforms[axis], axis, boundary)
            && global_shape[axis] > 0
}

/// A graph has at most one boundary.
pub proof fn law_r2c_graph_unique(
    global_shape: Seq<usize>,
    transforms: Seq<AxisTransform>,
    boundary: int,
    other: int,
)
    requires
        r2c_graph(global_shape, transforms, boundary),
        r2c_graph(global_shape, transforms, other),
    ensures
        boundary == other,
{
    assert(axis_allowed(transforms[boundary], boundary, other));
    assert(axis_allowed(transforms[boundary], boundary, boundary));
}

/// Returns the boundary axis of a mixed real-to-complex plan.
pub fn validate_r2c_graph<const N: usize>(
    global_shape: [usize; N],
    transforms: [AxisTransform; N],
) -> (result: Result<usize, MixedError>)
    ensures
        match result {
            Ok(boundary) => r2c_graph(global_shape@, transforms@, boundary as int),
            Err(error) => error == MixedError::InvalidGraph && forall|boundary: int|
                !r2c_graph(global_shape@, transforms@, boundary),
        },
{
    let mut found: Option<usize> = None;
    let mut axis: usize = 0;
    while axis < N
        invariant
            axis <= N,
            match found {
                Some(boundary) => boundary < axis && transforms@[boundary as int]
                    == AxisTransform::Rfft && forall|a: int|
                    0 <= a < axis && a != boundary ==> #[trigger] transforms@[a]
                        != AxisTransform::Rfft,
                None => forall|a: int|
                    0 <= a < axis ==> #[trigger] transforms@[a] != AxisTransform::Rfft,
            },
        decreases N - axis,
    {
        match transforms[axis] {
            AxisTransform::Rfft => {
                match found {
                    Some(earlier) => {
                        proof {
                            assert forall|b: int| !r2c_graph(global_shape@, transforms@, b) by {
                                if r2c_graph(global_shape@, transforms@, b) {
                                    assert(axis_allowed(
                                        transforms@[earlier as int],
                                        earlier as int,
                                        b,
                                    ));
                                    assert(axis_allowed(transforms@[axis as int], axis as int, b));
                                }
                            }
                        }
                        return Err(MixedError::InvalidGraph);
                    },
                    None => {
                        found = Some(axis);
                    },
                }
            },
            _ => {},
        }
        axis += 1;
    }
    let boundary: usize = match found {
        Some(boundary) => boundary,
        None => {
            proof {
                assert forall|b: int| !r2c_graph(global_shape@, transforms@, b) by {
                    if r2c_graph(global_shape@, transforms@, b) {
                        assert(axis_allowed(transforms@[b], b, b));
                    }
                }
            }
            return Err(MixedError::InvalidGraph);
        },
    };
    let mut axis: usize = 0;
    while axis < N
        invariant
            axis <= N,
            boundary < N,
            transforms@[boundary as int] == AxisTransform::Rfft,
            forall|a: int|
                0 <= a < axis ==> axis_allowed(#[trigger] transforms@[a], a, boundary as int)
                    && global_shape@[a] > 0,
        decreases N - axis,
    {
        let valid: bool = if axis == boundary {
            true
        } else if axis > boundary {
            match transforms[axis] {
                AxisTransform::Unchanged | AxisTransform::R2r(_) => true,
                AxisTransform::Fft | AxisTransform::Rfft => false,
            }
        } else {
            match transforms[axis] {
                AxisTransform::Unchanged | AxisTransform::Fft | AxisTransform::R2r(_) => true,
                AxisTransform::Rfft => false,
            }
        };
        if !valid || global_shape[axis] == 0 {
            proof {
                assert forall|b: int| !r2c_graph(global_shape@, transforms@, b) by {
                    if r2c_graph(global_shape@, transforms@, b) {
                        assert(axis_allowed(transforms@[boundary as int], boundary as int, b));
                        assert(axis_allowed(transforms@[axis as int], axis as int, b));
                    }
                }
            }
            return Err(MixedError::InvalidGraph);
        }
        axis += 1;
    }
    Ok(boundary)
}

/// Checks that only complex axes have a positive sign.
pub fn validate_r2c_directions<const N: usize>(
    transforms: [AxisTransform; N],
    directions: FourierDirections<N>,
) -> (result: Result<(), MixedError>)
    ensures
        result is Ok <==> forall|axis: int|
            0 <= axis < N ==> #[trigger] directions.0@[axis] == FourierDirection::Forward
                || transforms@[axis] == AxisTransform::Fft,
        result is Err ==> result->Err_0 == MixedError::Fft(FftError::PreparationFailed),
{
    let mut axis: usize = 0;
    while axis < N
        invariant
            axis <= N,
            forall|a: int|
                0 <= a < axis ==> #[trigger] directions.0@[a] == FourierDirection::Forward
                    || transforms@[a] == AxisTransform::Fft,
        decreases N - axis,
    {
        let complex: bool = match transforms[axis] {
            AxisTransform::Fft => true,
            _ => false,
        };
        match directions.0[axis] {
            FourierDirection::Backward => {
                if !complex {
                    assert(directions.0@[axis as int] == FourierDirection::Backward);
                    return Err(MixedError::Fft(FftError::PreparationFailed));
                }
            },
            FourierDirection::Forward => {},
        }
        axis += 1;
    }
    Ok(())
}

/// Checks that no cosine transform of the first kind stands on an axis of one element.
pub fn validate_kinds<const N: usize>(
    global_shape: [usize; N],
    kinds: [Option<R2rKind>; N],
) -> (result: Result<(), R2rError>)
    ensures
        result is Ok <==> forall|axis: int|
            0 <= axis < N ==> !(#[trigger] kinds@[axis] == Some(R2rKind::DctI)
                && global_shape@[axis] == 1),
        result is Err ==> result->Err_0 == R2rError::LocalR2r(LocalR2rError::InvalidLength),
{
    let mut axis: usize = 0;
    while axis < N
        invariant
            axis <= N,
            forall|a: int|
                0 <= a < axis ==> !(#[trigger] kinds@[a] == Some(R2rKind::DctI) && global_shape@[a]
                    == 1),
        decreases N - axis,
    {
        let first: bool = match kinds[axis] {
            Some(R2rKind::DctI) => true,
            _ => false,
        };
        if first && global_shape[axis] == 1 {
            assert(kinds@[axis as int] == Some(R2rKind::DctI));
            return Err(R2rError::LocalR2r(LocalR2rError::InvalidLength));
        }
        axis += 1;
    }
    Ok(())
}

/// A stage can transform `axis`: every rank has the whole axis.
pub open spec fn axis_is_local<const N: usize, const M: usize>(
    pencil: Pencil<N, M>,
    axis: int,
    expected_len: int,
) -> bool {
    !pencil.distributes(axis) && pencil.local_shape@[axis] == expected_len
}

/// Whether a stage can transform `axis`.
pub fn stage_axis_local<const N: usize, const M: usize>(
    pencil: &Pencil<N, M>,
    axis: usize,
    expected_len: usize,
) -> (local: bool)
    requires
        axis < N,
    ensures
        local == axis_is_local(*pencil, axis as int, expected_len as int),
{
    let mut d: usize = 0;
    while d < M
        invariant
            d <= M,
            forall|j: int| 0 <= j < d ==> #[trigger] pencil.decomposition@[j] != axis,
        decreases M - d,
    {
        if pencil.decomposition[d] == axis {
            assert(pencil.decomposition@[d as int] == axis);
            return false;
        }
        d += 1;
    }
    pencil.local_shape[axis] == expected_len
}

/// Checks that a stage of a mixed plan can transform `axis`.
pub fn validate_stage_pencil<const N: usize, const M: usize>(
    pencil: &Pencil<N, M>,
    axis: usize,
    expected_len: usize,
) -> (result: Result<(), MixedError>)
    requires
        axis < N,
    ensures
        result is Ok <==> axis_is_local(*pencil, axis as int, expected_len as int),
        result is Err ==> result->Err_0 == MixedError::Fft(FftError::PreparationFailed),
{
    if stage_axis_local(pencil, axis, expected_len) {
        Ok(())
    } else {
        Err(MixedError::Fft(FftError::PreparationFailed))
    }
}

} // verus!
