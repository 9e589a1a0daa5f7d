//! Preflight and handoff read the capacity of one allocation: what the one accepts has room for the
//! other.

use vstd::prelude::*;

use crate::convert::handoff_len;
use crate::convert::reverse_len;
use crate::layout::Direction;
use crate::mixed_r2c::mixed_len_error;
use crate::mixed_r2c::mixed_r2c_in_place_error;
use crate::mixed_r2c::MixedR2cCore;
use crate::mixed_r2c::MixedR2cInPlaceArray;
use crate::mixed_r2c::MixedR2cInPlaceWorkspace;
use crate::r2c::r2c_in_place_error;
use crate::r2c::storage_len_error;
use crate::r2c::R2cInPlaceArray;
use crate::r2c::R2cInPlaceWorkspace;
use crate::r2c::TransformPlanCore;
use crate::registry::inputs_of;
use crate::registry::largest_local_len;
use crate::registry::outputs_of;
use crate::registry::Stage;
use crate::scalar::FftReal;
use crate::storage::bytes_need;
use crate::storage::complex_need;
use crate::storage::lemma_bytes_bound;
use crate::storage::promoted_len;
use crate::storage::real_need;
use crate::storage::storage_needs;

verus! {

proof fn lemma_even(capacity: int, size: int)
    requires
        0 < size,
        0 <= capacity,
        (capacity * size) % (2 * size) == 0,
    ensures
        capacity % 2 == 0,
{
    let count = (capacity * size) / (2 * size);
    vstd::arithmetic::div_mod::lemma_fundamental_div_mod(capacity * size, 2 * size);
    assert(capacity == 2 * count) by (nonlinear_arith)
        requires
            capacity * size == (2 * size) * count,
            0 < size,
    ;
}

proof fn lemma_no_more(small: int, large: int, size: int)
    requires
        0 < size,
        small * size <= large * size,
    ensures
        small <= large,
{
    assert(small <= large) by (nonlinear_arith)
        requires
            0 < size,
            small * size <= large * size,
    ;
}

/// An allocation of `capacity` scalars that holds the bytes of both sides holds the promoted values.
proof fn lemma_promoted(stride: usize, reals: int, complexes: int, size: int, capacity: int)
    requires
        0 <= reals,
        0 <= complexes,
        1 <= size <= 8,
        capacity % 2 == 0,
        bytes_need(reals, complexes, stride as int, size) <= capacity * size <= isize::MAX,
    ensures
        promoted_len(Some(stride), reals, complexes, size) matches Some(len) && 0 <= 2 * len <= capacity
            && len * (2 * size) <= usize::MAX,
{
    let larger = if reals < complexes {
        complexes
    } else {
        reals
    };
    assert(complexes * (2 * size) == (2 * complexes) * size) by (nonlinear_arith);
    assert(reals * (2 * size) == (2 * reals) * size) by (nonlinear_arith);
    if stride > 1 {
        lemma_no_more(2 * larger, capacity, size);
        assert(larger * (2 * size) <= capacity * size);
    } else {
        lemma_no_more(2 * complexes, capacity, size);
        lemma_no_more(reals, capacity, size);
        let half = (reals + 1) / 2;
        let len = if half < complexes {
            complexes
        } else {
            half
        };
        assert(len * (2 * size) <= capacity * size) by (nonlinear_arith)
            requires
                0 <= 2 * len <= capacity,
                0 < size,
        ;
    }
}

/// The lengths that a plan needs are the ones that its bytes are counted from.
proof fn lemma_needs<const N: usize, const M: usize>(
    stages: Seq<Stage<N, M>>,
    boundary: usize,
    extra: int,
    size: int,
)
    requires
        boundary < stages.len(),
        0 <= extra,
        1 <= size <= 8,
        storage_needs(stages, Some(boundary), extra, size) is Some,
    ensures
        ({
            let needs = storage_needs(stages, Some(boundary), extra, size)->0;
            let stage = stages[boundary as int];
            let stride = stage.input.stride_along(stage.axis as int)->0;
            &&& needs.storage_bytes == bytes_need(
                needs.real_len as int,
                needs.complex_len as int,
                stride as int,
                size,
            )
            &&& needs.complex_len * (2 * size) <= needs.storage_bytes
        }),
{
    let stage = stages[boundary as int];
    let stride = stage.input.stride_along(stage.axis as int)->0;
    let reals = real_need(stages, boundary as int, extra);
    let complexes = complex_need(stages, boundary as int, extra);
    let inputs = inputs_of(stages.take(boundary + 1));
    let outputs = outputs_of(stages.skip(boundary as int));
    assert(0 <= reals && 0 <= complexes) by (nonlinear_arith)
        requires
            reals == largest_local_len(inputs) * extra,
            complexes == largest_local_len(outputs) * extra,
            extra >= 0,
    ;
    lemma_bytes_bound(reals, complexes, stride as int, size);
}

/// An array that the preflight of a forward execution in place accepts at a capacity has room for
/// the handoff to the complex side at that capacity: it is neither too small nor odd.
pub proof fn law_preflight_makes_room<R: FftReal, const N: usize, const M: usize>(
    core: TransformPlanCore<N, M>,
    array: R2cInPlaceArray<R, N, M>,
    workspace: R2cInPlaceWorkspace<R, N, M>,
    capacity: usize,
)
    requires
        core.wf(),
        r2c_in_place_error(core, Direction::Forward, array, workspace, capacity) is None,
    ensures
        capacity % 2 == 0,
        handoff_len(core.spec_boundary(), array.shared) matches Some(len) && 2 * len <= capacity,
{
    R::lemma_bytes();
    let size = R::bytes() as int;
    let extra = core.extra_shape.element_count as int;
    assert(storage_len_error(core, array.shared, capacity) is None);
    let needs = storage_needs(core.stages@, Some(core.boundary), extra, size)->0;
    lemma_even(capacity as int, size);
    lemma_needs(core.stages@, core.boundary, extra, size);
    lemma_promoted(
        core.spec_boundary().real_stride()->0,
        needs.real_len as int,
        needs.complex_len as int,
        size,
        capacity as int,
    );
}

/// An array that the preflight of a reverse execution in place accepts at a capacity has room for
/// the handoff to the real side at that capacity.
pub proof fn law_preflight_makes_room_back<R: FftReal, const N: usize, const M: usize>(
    core: TransformPlanCore<N, M>,
    direction: Direction,
    array: R2cInPlaceArray<R, N, M>,
    workspace: R2cInPlaceWorkspace<R, N, M>,
    capacity: usize,
)
    requires
        core.wf(),
        direction != Direction::Forward,
        r2c_in_place_error(core, direction, array, workspace, capacity) is None,
    ensures
        handoff_len(core.spec_boundary(), array.shared) is Some,
        reverse_len(core.spec_boundary(), array.shared) <= capacity,
{
    R::lemma_bytes();
    let size = R::bytes() as int;
    let extra = core.extra_shape.element_count as int;
    assert(storage_len_error(core, array.shared, capacity) is None);
    let needs = storage_needs(core.stages@, Some(core.boundary), extra, size)->0;
    lemma_needs(core.stages@, core.boundary, extra, size);
    assert(capacity * (2 * size) == (2 * capacity) * size) by (nonlinear_arith);
    lemma_promoted(
        core.spec_boundary().real_stride()->0,
        needs.real_len as int,
        needs.complex_len as int,
        size,
        2 * capacity,
    );
}

/// An array that the preflight of a forward execution of a mixed plan in place accepts at a capacity
/// can be handed to the complex side at that capacity: its bytes and its pairs can be counted.
pub proof fn law_mixed_preflight_makes_room<R: FftReal, const N: usize, const M: usize>(
    core: MixedR2cCore<N, M>,
    array: MixedR2cInPlaceArray<R, N, M>,
    workspace: MixedR2cInPlaceWorkspace<R, N, M>,
    capacity: usize,
)
    requires
        core.wf(),
        mixed_r2c_in_place_error(core, Direction::Forward, array, workspace, capacity) is None,
    ensures
        capacity % 2 == 0,
        capacity * R::bytes() <= usize::MAX,
{
    R::lemma_bytes();
    assert(mixed_len_error(core, Direction::Forward, array.shared, capacity) is None);
    lemma_even(capacity as int, R::bytes() as int);
}

/// An array that the preflight of a reverse execution of a mixed plan in place accepts at a capacity
/// has room for the complex side at that capacity.
pub proof fn law_mixed_preflight_makes_room_back<R: FftReal, const N: usize, const M: usize>(
    core: MixedR2cCore<N, M>,
    direction: Direction,
    array: MixedR2cInPlaceArray<R, N, M>,
    workspace: MixedR2cInPlaceWorkspace<R, N, M>,
    capacity: usize,
)
    requires
        core.wf(),
        direction != Direction::Forward,
        mixed_r2c_in_place_error(core, direction, array, workspace, capacity) is None,
    ensures
        array.shared.complex_storage_len <= capacity,
{
    R::lemma_bytes();
    let size = R::bytes() as int;
    let extra = core.extra_shape.element_count as int;
    assert(mixed_len_error(core, direction, array.shared, capacity) is None);
    let needs = storage_needs(core.stages@, Some(core.boundary), extra, size)->0;
    lemma_needs(core.stages@, core.boundary, extra, size);
    lemma_no_more(needs.complex_len as int, capacity as int, 2 * size);
}

} // verus!
