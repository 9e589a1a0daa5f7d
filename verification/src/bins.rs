//! The endpoint planes of a half spectrum by the frequencies of its values.

use vstd::prelude::*;

use crate::array::ManyPencilArray;
use crate::boundary::endpoints_zeroed;
use crate::boundary::ReducedAxis;
use crate::crew_r2c::spoiled;
use crate::endpoints::mixed_planes_done;
use crate::endpoints::planes_done;
use crate::endpoints::reduced_axis;
use crate::error::ArrayError;
use crate::error::FftError;
use crate::error::MixedError;
use crate::error::R2cError;
use crate::layout::Pencil;
use crate::local::LocalR2cPlan;
use crate::mixed_r2c::MixedR2cCore;
use crate::r2c::TransformPlanCore;
use crate::scalar::Complex;
use crate::scalar::FftReal;
use crate::spectrum::absorbed;
use crate::spectrum::all_peaks_judged;
use crate::spectrum::all_true;
use crate::spectrum::batch_judged;
use crate::spectrum::batch_values;
use crate::spectrum::batches_judged;
use crate::spectrum::folded;
use crate::spectrum::grid_values;
use crate::spectrum::half_spectrum_checked;
use crate::spectrum::lines_fill;
use crate::spectrum::mixed_spectrum_checked;
use crate::spectrum::mixed_spectrum_checked_in;
use crate::spectrum::peaks_judged;
use crate::spectrum::plane_grid;
use crate::spectrum::plane_values;
use crate::spectrum::Gauge;
use crate::spectrum::PlaneGrid;
use crate::station::front_written;

verus! {

/// A frequency of lines of `real_len` reals whose value is a real number: the mean, and half the
/// number of reals where that number is even.
pub open spec fn is_endpoint(frequency: int, real_len: int) -> bool {
    frequency == 0 || 2 * frequency == real_len
}

/// The coordinates of an element can be read off its offset.
pub proof fn lemma_coordinates(row: int, k: int, lane: int, len: int, stride: int)
    requires
        row >= 0,
        0 <= k < len,
        0 <= lane < stride,
    ensures
        ((row * len + k) * stride + lane) / stride == row * len + k,
        (row * len + k) % len == k,
        0 <= row * len + k,
        0 <= (row * len + k) * stride + lane,
{
    assert(0 <= row * len) by (nonlinear_arith)
        requires
            row >= 0,
            len > 0,
    ;
    assert(0 <= (row * len + k) * stride) by (nonlinear_arith)
        requires
            row * len + k >= 0,
            stride > 0,
    ;
    vstd::arithmetic::div_mod::lemma_fundamental_div_mod_converse(
        (row * len + k) * stride + lane,
        stride,
        row * len + k,
        lane,
    );
    vstd::arithmetic::div_mod::lemma_fundamental_div_mod_converse(row * len + k, len, row, k);
}

/// Every offset has coordinates.
pub proof fn lemma_has_coordinates(offset: int, len: int, stride: int) -> (at: (int, int, int))
    requires
        offset >= 0,
        len > 0,
        stride > 0,
    ensures
        at.0 >= 0,
        0 <= at.1 < len,
        0 <= at.2 < stride,
        offset == (at.0 * len + at.1) * stride + at.2,
        at.1 == (offset / stride) % len,
{
    let q = offset / stride;
    let row = q / len;
    let k = q % len;
    let lane = offset % stride;
    vstd::arithmetic::div_mod::lemma_fundamental_div_mod(offset, stride);
    vstd::arithmetic::div_mod::lemma_fundamental_div_mod(q, len);
    assert(0 <= q) by (nonlinear_arith)
        requires
            q == offset / stride,
            offset >= 0,
            stride > 0,
    ;
    assert(0 <= row) by (nonlinear_arith)
        requires
            row == q / len,
            q >= 0,
            len > 0,
    ;
    assert(q == row * len + k) by (nonlinear_arith)
        requires
            q == len * row + k,
    ;
    assert(offset == (row * len + k) * stride + lane) by (nonlinear_arith)
        requires
            offset == stride * q + lane,
            q == row * len + k,
    ;
    (row, k, lane)
}

/// The element in row `row`, at place `k` of the axis and in lane `lane` of a block that starts at
/// some frequency belongs to a plane exactly where its frequency in the whole spectrum is an
/// endpoint: the first plane is the mean, the second the highest frequency.
pub proof fn law_plane_is_frequency(axis: ReducedAxis, row: int, k: int, lane: int)
    requires
        axis.wf(),
        axis.complex_len == axis.real_len / 2 + 1,
        axis.real_len > 0,
        row >= 0,
        0 <= k < axis.local_axis_len,
        0 <= lane < axis.stride,
    ensures
        axis.plane((row * axis.local_axis_len + k) * axis.stride + lane) is Some <==> is_endpoint(
            axis.global_axis_start + k,
            axis.real_len as int,
        ),
        axis.plane((row * axis.local_axis_len + k) * axis.stride + lane) == Some(0usize) <==> (
        axis.global_axis_start + k == 0),
        axis.plane((row * axis.local_axis_len + k) * axis.stride + lane) == Some(1usize) <==> (2 * (
        axis.global_axis_start + k) == axis.real_len),
{
    lemma_coordinates(row, k, lane, axis.local_axis_len as int, axis.stride as int);
}

/// Splitting the reduced axis over processes does not change the planes: an element of the part
/// that starts at a frequency lies in the plane in which it lies in the whole.
pub proof fn law_planes_survive_splitting(
    whole: ReducedAxis,
    part: ReducedAxis,
    rows: (int, int),
    k: int,
    lanes: (int, int),
)
    requires
        whole.wf(),
        part.wf(),
        whole.global_axis_start == 0,
        whole.local_axis_len == whole.complex_len,
        part.global_axis_start + part.local_axis_len <= whole.complex_len,
        part.real_len == whole.real_len,
        part.complex_len == whole.complex_len,
        rows.0 >= 0,
        rows.1 >= 0,
        0 <= k < part.local_axis_len,
        0 <= lanes.0 < whole.stride,
        0 <= lanes.1 < part.stride,
    ensures
        part.plane((rows.1 * part.local_axis_len + k) * part.stride + lanes.1) == whole.plane(
            (rows.0 * whole.local_axis_len + (part.global_axis_start + k)) * whole.stride + lanes.0,
        ),
{
    lemma_coordinates(
        rows.0,
        part.global_axis_start + k,
        lanes.0,
        whole.local_axis_len as int,
        whole.stride as int,
    );
    lemma_coordinates(rows.1, k, lanes.1, part.local_axis_len as int, part.stride as int);
}

/// Clearing makes the values at endpoint frequencies real, keeping their real parts, in every block
/// of the batch, and touches nothing else.
pub proof fn law_clearing_makes_endpoints_real<R: FftReal>(
    axis: ReducedAxis,
    original: Seq<Complex<R>>,
    result: Seq<Complex<R>>,
    local_len: int,
    batches: int,
    batch: int,
    row: int,
    k: int,
    lane: int,
)
    requires
        endpoints_zeroed::<R>(axis, original, result, local_len, batches),
        axis.wf(),
        axis.complex_len == axis.real_len / 2 + 1,
        axis.real_len > 0,
        batches * local_len <= original.len(),
        0 <= batch < batches,
        row >= 0,
        0 <= k < axis.local_axis_len,
        0 <= lane < axis.stride,
        (row * axis.local_axis_len + k) * axis.stride + lane < local_len,
    ensures
        result.len() == original.len(),
        ({
            let at = batch * local_len + (row * axis.local_axis_len + k) * axis.stride + lane;
            let frequency = axis.global_axis_start + k;
            &&& 0 <= at < original.len()
            &&& frequency == 0 || 2 * frequency == axis.real_len ==> result[at]@[0]
                == original[at]@[0] && result[at]@[1] == R::zero_bits()
            &&& frequency != 0 && 2 * frequency != axis.real_len ==> result[at] == original[at]
        }),
{
    let offset = (row * axis.local_axis_len + k) * axis.stride + lane;
    lemma_coordinates(row, k, lane, axis.local_axis_len as int, axis.stride as int);
    law_plane_is_frequency(axis, row, k, lane);
    let at = batch * local_len + offset;
    assert(0 <= batch * local_len && batch * local_len + local_len <= batches * local_len)
        by (nonlinear_arith)
        requires
            0 <= batch < batches,
            0 <= local_len,
    ;
    vstd::arithmetic::div_mod::lemma_fundamental_div_mod_converse(at, local_len, batch, offset);
    assert(result[at] == result[at]);
}

/// The statistics `spoiled` cannot be mended: an alarming value in a plane spoils them, whatever is
/// added keeps them spoilt, and they are not judged real enough.
pub open spec fn alarms<S, V, X: Fn(&S, S, usize, V) -> S, U: Fn(S) -> S, Y: Fn(&S, S, usize, V) -> S, Z: Fn(S) -> S, J: Fn(S, S, S) -> bool>(
    gauge: Gauge<X, U, Y, Z, J>,
    alarming: spec_fn(usize, V) -> bool,
    spoiled: spec_fn(S) -> bool,
) -> bool {
    &&& forall|context: &S, before: S, plane: usize, value: V, after: S| #[trigger]
        gauge.peak.ensures((context, before, plane, value), after) && (spoiled(before) || alarming(
            plane,
            value,
        )) ==> spoiled(after)
    &&& forall|own: S, peaks: S, shares: S, fine: bool| #[trigger]
        gauge.judge.ensures((own, peaks, shares), fine) && spoiled(own) ==> !fine
}

/// The statistics stay `sound` as long as no alarming value is added, and sound ones are judged
/// real enough.
pub open spec fn reassures<S, V, X: Fn(&S, S, usize, V) -> S, U: Fn(S) -> S, Y: Fn(&S, S, usize, V) -> S, Z: Fn(S) -> S, J: Fn(S, S, S) -> bool>(
    gauge: Gauge<X, U, Y, Z, J>,
    zero: S,
    alarming: spec_fn(usize, V) -> bool,
    sound: spec_fn(S) -> bool,
) -> bool {
    &&& sound(zero)
    &&& forall|context: &S, before: S, plane: usize, value: V, after: S| #[trigger]
        gauge.peak.ensures((context, before, plane, value), after) && sound(before) && !alarming(
            plane,
            value,
        ) ==> sound(after)
    &&& forall|own: S, peaks: S, shares: S, fine: bool| #[trigger]
        gauge.judge.ensures((own, peaks, shares), fine) && sound(own) ==> fine
}

proof fn lemma_fold_spoiled<S, V, X: Fn(&S, S, usize, V) -> S, U: Fn(S) -> S, Y: Fn(&S, S, usize, V) -> S, Z: Fn(S) -> S, J: Fn(S, S, S) -> bool>(
    gauge: Gauge<X, U, Y, Z, J>,
    alarming: spec_fn(usize, V) -> bool,
    spoiled: spec_fn(S) -> bool,
    context: S,
    start: S,
    items: Seq<(usize, V)>,
    i: int,
    end: S,
)
    requires
        alarms(gauge, alarming, spoiled),
        folded(gauge.peak, context, start, items, end),
        0 <= i < items.len(),
        alarming(items[i].0, items[i].1),
    ensures
        spoiled(end),
    decreases items.len(),
{
    let between = choose|between: S| #[trigger]
        absorbed(gauge.peak, context, between, items.last(), end) && folded(
            gauge.peak,
            context,
            start,
            items.drop_last(),
            between,
        );
    if i < items.len() - 1 {
        lemma_fold_spoiled(gauge, alarming, spoiled, context, start, items.drop_last(), i, between);
    }
    assert(gauge.peak.ensures((&context, between, items.last().0, items.last().1), end));
}

proof fn lemma_fold_sound<S, V, X: Fn(&S, S, usize, V) -> S, U: Fn(S) -> S, Y: Fn(&S, S, usize, V) -> S, Z: Fn(S) -> S, J: Fn(S, S, S) -> bool>(
    gauge: Gauge<X, U, Y, Z, J>,
    zero: S,
    alarming: spec_fn(usize, V) -> bool,
    sound: spec_fn(S) -> bool,
    context: S,
    start: S,
    items: Seq<(usize, V)>,
    end: S,
)
    requires
        reassures(gauge, zero, alarming, sound),
        folded(gauge.peak, context, start, items, end),
        sound(start),
        forall|i: int| 0 <= i < items.len() ==> !alarming((#[trigger] items[i]).0, items[i].1),
    ensures
        sound(end),
    decreases items.len(),
{
    if items.len() > 0 {
        let between = choose|between: S| #[trigger]
            absorbed(gauge.peak, context, between, items.last(), end) && folded(
                gauge.peak,
                context,
                start,
                items.drop_last(),
                between,
            );
        assert forall|i: int| 0 <= i < items.drop_last().len() implies !alarming(
            (#[trigger] items.drop_last()[i]).0,
            items.drop_last()[i].1,
        ) by {
            assert(items.drop_last()[i] == items[i]);
        }
        lemma_fold_sound(gauge, zero, alarming, sound, context, start, items.drop_last(), between);
        assert(!alarming(items[items.len() - 1].0, items[items.len() - 1].1));
        assert(gauge.peak.ensures((&context, between, items.last().0, items.last().1), end));
    }
}

/// A value in a plane is among the endpoint values of its block.
proof fn lemma_plane_counted<V>(axis: ReducedAxis, block: Seq<V>, count: int, offset: int) -> (i: int)
    requires
        0 <= offset < count,
        axis.plane(offset) is Some,
    ensures
        0 <= i < plane_values(axis, block, count).len(),
        plane_values(axis, block, count)[i] == (axis.plane(offset)->0, block[offset]),
    decreases count,
{
    if offset == count - 1 {
        plane_values(axis, block, count).len() - 1
    } else {
        lemma_plane_counted(axis, block, count - 1, offset)
    }
}

/// The endpoint values of a block are values in its planes.
proof fn lemma_counted_in_plane<V>(axis: ReducedAxis, block: Seq<V>, count: int, i: int) -> (offset: int)
    requires
        0 <= i < plane_values(axis, block, count).len(),
    ensures
        0 <= offset < count,
        axis.plane(offset) is Some,
        plane_values(axis, block, count)[i] == (axis.plane(offset)->0, block[offset]),
    decreases count,
{
    let earlier = plane_values(axis, block, count - 1);
    if i < earlier.len() {
        lemma_counted_in_plane(axis, block, count - 1, i)
    } else {
        count - 1
    }
}

/// One alarming value at an endpoint frequency, in whichever block of the batch, is enough: the
/// spectrum of a real-to-complex plan is refused on every process.
pub proof fn law_alarming_endpoint_refused<R: FftReal, S: Copy, A: Fn(bool) -> bool, X: Fn(&S, S, usize, Complex<R>) -> S, U: Fn(S) -> S, Y: Fn(&S, S, usize, Complex<R>) -> S, Z: Fn(S) -> S, J: Fn(S, S, S) -> bool, const N: usize, const M: usize>(
    core: TransformPlanCore<N, M>,
    agree: A,
    gauge: Gauge<X, U, Y, Z, J>,
    zero: S,
    start: usize,
    complexes: ManyPencilArray<Complex<R>, N, M>,
    outcome: Result<(), R2cError>,
    alarming: spec_fn(usize, Complex<R>) -> bool,
    spoiled: spec_fn(S) -> bool,
    pencil: Pencil<N, M>,
    batch: int,
    at: (int, int, int),
)
    requires
        half_spectrum_checked::<R, S, A, X, U, Y, Z, J, N, M>(
            core,
            agree,
            gauge,
            zero,
            start,
            complexes,
            outcome,
        ),
        core.wf(),
        alarms(gauge, alarming, spoiled),
        forall|all_fine: bool| #[trigger] agree.ensures((false,), all_fine) ==> !all_fine,
        complexes.wf(),
        complexes.spec_active_pencil() == Ok::<Pencil<N, M>, ArrayError>(pencil),
        pencil.stride_along(core.stages@[core.boundary as int].axis as int) is Some,
        reduced_axis(
            pencil,
            core.stages@[core.boundary as int].axis as int,
            start,
            core.plan(),
        ).wf(),
        0 <= batch < complexes.extra_shape.element_count,
        at.0 >= 0,
        0 <= at.1 < pencil.local_shape@[core.stages@[core.boundary as int].axis as int],
        0 <= at.2 < pencil.stride_along(core.stages@[core.boundary as int].axis as int)->0,
        ({
            let axis = core.stages@[core.boundary as int].axis as int;
            let offset = (at.0 * pencil.local_shape@[axis] + at.1) * pencil.stride_along(axis)->0
                + at.2;
            let value = complexes.storage@[batch * pencil.local_len + offset];
            &&& offset < pencil.local_len
            &&& start + at.1 == 0 && alarming(0, value) || 2 * (start + at.1) == core.plan().real_len
                && alarming(1, value)
        }),
    ensures
        outcome == Err::<(), R2cError>(R2cError::InvalidSpectrum),
{
    let axis = core.stages@[core.boundary as int].axis as int;
    let reduced = reduced_axis(pencil, axis, start, core.plan());
    let offset = (at.0 * pencil.local_shape@[axis] + at.1) * pencil.stride_along(axis)->0 + at.2;
    let len = pencil.local_len as int;
    let count = complexes.extra_shape.element_count as int;
    let data = complexes.storage@.subrange(0, complexes.active_len());
    lemma_coordinates(at.0, at.1, at.2, pencil.local_shape@[axis] as int, pencil.stride_along(axis)->0 as int);
    law_plane_is_frequency(reduced, at.0, at.1, at.2);
    complexes.lemma_active_fits();
    assert(complexes.active_len() == len * count);
    assert(0 <= batch * len && batch * len + len <= len * count) by (nonlinear_arith)
        requires
            0 <= batch < count,
            0 <= len,
    ;
    let block = data.subrange(batch * len, batch * len + len);
    let items = batch_values(reduced, data, len);
    assert(items(batch) == plane_values(reduced, block, len));
    let i = lemma_plane_counted(reduced, block, len, offset);
    assert(block[offset] == complexes.storage@[batch * len + offset]);
    assert forall|fine: bool| #[trigger]
        batches_judged::<S, Complex<R>, X, U, Y, Z, J>(gauge, zero, items, count, fine) implies !fine by {
        let verdicts = choose|verdicts: Seq<bool>|
            {
                &&& verdicts.len() == count
                &&& forall|i: int|
                    0 <= i < count ==> batch_judged::<S, Complex<R>, X, U, Y, Z, J>(
                        gauge,
                        zero,
                        items(i),
                        #[trigger] verdicts[i],
                    )
                &&& fine == all_true(verdicts)
            };
        let verdict = verdicts[batch];
        let own = choose|own: S|
            {
                &&& folded(gauge.peak, zero, zero, items(batch), own)
                &&& #[trigger] peaks_judged::<S, Complex<R>, X, U, Y, Z, J>(
                    gauge,
                    zero,
                    own,
                    items(batch),
                    verdict,
                )
            };
        lemma_fold_spoiled(gauge, alarming, spoiled, zero, zero, items(batch), i, own);
        assert(!verdict);
    }
}

/// A spectrum of a real-to-complex plan without an alarming value at an endpoint frequency is
/// accepted, whatever stands at other frequencies.
pub proof fn law_sound_endpoints_accepted<R: FftReal, S: Copy, A: Fn(bool) -> bool, X: Fn(&S, S, usize, Complex<R>) -> S, U: Fn(S) -> S, Y: Fn(&S, S, usize, Complex<R>) -> S, Z: Fn(S) -> S, J: Fn(S, S, S) -> bool, const N: usize, const M: usize>(
    core: TransformPlanCore<N, M>,
    agree: A,
    gauge: Gauge<X, U, Y, Z, J>,
    zero: S,
    start: usize,
    complexes: ManyPencilArray<Complex<R>, N, M>,
    outcome: Result<(), R2cError>,
    alarming: spec_fn(usize, Complex<R>) -> bool,
    sound: spec_fn(S) -> bool,
    pencil: Pencil<N, M>,
)
    requires
        half_spectrum_checked::<R, S, A, X, U, Y, Z, J, N, M>(
            core,
            agree,
            gauge,
            zero,
            start,
            complexes,
            outcome,
        ),
        core.wf(),
        reassures(gauge, zero, alarming, sound),
        forall|all_fine: bool| #[trigger] agree.ensures((true,), all_fine) ==> all_fine,
        complexes.wf(),
        complexes.spec_active_pencil() == Ok::<Pencil<N, M>, ArrayError>(pencil),
        pencil.stride_along(core.stages@[core.boundary as int].axis as int) is Some,
        reduced_axis(
            pencil,
            core.stages@[core.boundary as int].axis as int,
            start,
            core.plan(),
        ).wf(),
        forall|batch: int, row: int, k: int, lane: int|
            #![trigger at_place(core, pencil, batch, row, k, lane)]
            0 <= batch < complexes.extra_shape.element_count && row >= 0 && 0 <= k
                < pencil.local_shape@[core.stages@[core.boundary as int].axis as int] && 0 <= lane
                < pencil.stride_along(core.stages@[core.boundary as int].axis as int)->0
                && at_place(core, pencil, 0, row, k, lane) < pencil.local_len ==> {
                let value = complexes.storage@[at_place(core, pencil, batch, row, k, lane)];
                &&& start + k == 0 ==> !alarming(0, value)
                &&& 2 * (start + k) == core.plan().real_len ==> !alarming(1, value)
            },
    ensures
        outcome is Ok,
{
    let axis = core.stages@[core.boundary as int].axis as int;
    let reduced = reduced_axis(pencil, axis, start, core.plan());
    let len = pencil.local_len as int;
    let count = complexes.extra_shape.element_count as int;
    let data = complexes.storage@.subrange(0, complexes.active_len());
    let items = batch_values(reduced, data, len);
    complexes.lemma_active_fits();
    assert(complexes.active_len() == len * count);
    assert forall|batch: int, i: int| 0 <= batch < count && 0 <= i < items(batch).len() implies !alarming(
        (#[trigger] items(batch)[i]).0,
        items(batch)[i].1,
    ) by {
        assert(0 <= batch * len && batch * len + len <= len * count) by (nonlinear_arith)
            requires
                0 <= batch < count,
                0 <= len,
        ;
        let block = data.subrange(batch * len, batch * len + len);
        assert(items(batch) == plane_values(reduced, block, len));
        let offset = lemma_counted_in_plane(reduced, block, len, i);
        let at = lemma_has_coordinates(offset, pencil.local_shape@[axis] as int, pencil.stride_along(axis)->0 as int);
        law_plane_is_frequency(reduced, at.0, at.1, at.2);
        assert(at_place(core, pencil, 0, at.0, at.1, at.2) == offset) by {
            assert(0 * len == 0);
        }
        assert(at_place(core, pencil, batch, at.0, at.1, at.2) == batch * len + offset);
        assert(block[offset] == complexes.storage@[batch * len + offset]);
    }
    assert forall|fine: bool| #[trigger]
        batches_judged::<S, Complex<R>, X, U, Y, Z, J>(gauge, zero, items, count, fine) implies fine by {
        let verdicts = choose|verdicts: Seq<bool>|
            {
                &&& verdicts.len() == count
                &&& forall|i: int|
                    0 <= i < count ==> batch_judged::<S, Complex<R>, X, U, Y, Z, J>(
                        gauge,
                        zero,
                        items(i),
                        #[trigger] verdicts[i],
                    )
                &&& fine == all_true(verdicts)
            };
        assert forall|b: int| 0 <= b < verdicts.len() implies #[trigger] verdicts[b] by {
            let verdict = verdicts[b];
            let own = choose|own: S|
                {
                    &&& folded(gauge.peak, zero, zero, items(b), own)
                    &&& #[trigger] peaks_judged::<S, Complex<R>, X, U, Y, Z, J>(
                        gauge,
                        zero,
                        own,
                        items(b),
                        verdict,
                    )
                };
            lemma_fold_sound(gauge, zero, alarming, sound, zero, zero, items(b), own);
        }
    }
}

/// Where the element in block `batch`, row `row`, at place `k` of the reduced axis and in lane
/// `lane` lies.
pub open spec fn at_place<const N: usize, const M: usize>(
    core: TransformPlanCore<N, M>,
    pencil: Pencil<N, M>,
    batch: int,
    row: int,
    k: int,
    lane: int,
) -> int {
    let axis = core.stages@[core.boundary as int].axis as int;
    batch * pencil.local_len + (row * pencil.local_shape@[axis] + k) * pencil.stride_along(axis)->0 + lane
}

/// Clearing the planes of a real-to-complex plan, in values whose block starts at frequency
/// `start`, makes the values at endpoint frequencies real in every block of the batch, and
/// touches nothing else.
pub proof fn law_half_planes_cleared<R: FftReal, const N: usize, const M: usize>(
    core: TransformPlanCore<N, M>,
    start: usize,
    before: ManyPencilArray<Complex<R>, N, M>,
    after: ManyPencilArray<Complex<R>, N, M>,
    pencil: Pencil<N, M>,
    batch: int,
    at: (int, int, int),
)
    requires
        planes_done(core, start, before, after, Ok(())),
        core.wf(),
        before.wf(),
        before.spec_active_pencil() == Ok::<Pencil<N, M>, ArrayError>(pencil),
        reduced_axis(
            pencil,
            core.stages@[core.boundary as int].axis as int,
            start,
            core.plan(),
        ).wf(),
        0 <= batch < before.extra_shape.element_count,
        at.0 >= 0,
        0 <= at.1 < pencil.local_shape@[core.stages@[core.boundary as int].axis as int],
        0 <= at.2 < pencil.stride_along(core.stages@[core.boundary as int].axis as int)->0,
        at_place(core, pencil, 0, at.0, at.1, at.2) < pencil.local_len,
    ensures
        ({
            let place = at_place(core, pencil, batch, at.0, at.1, at.2);
            let frequency = start + at.1;
            &&& after.active == before.active
            &&& after.storage@.len() == before.storage@.len()
            &&& 0 <= place < before.storage@.len()
            &&& frequency == 0 || 2 * frequency == core.plan().real_len ==> {
                &&& after.storage@[place]@[0] == before.storage@[place]@[0]
                &&& after.storage@[place]@[1] == R::zero_bits()
            }
            &&& frequency != 0 && 2 * frequency != core.plan().real_len ==> after.storage@[place]
                == before.storage@[place]
        }),
        forall|i: int|
            pencil.local_len * before.extra_shape.element_count <= i < before.storage@.len()
                ==> #[trigger] after.storage@[i] == before.storage@[i],
{
    let axis = core.stages@[core.boundary as int].axis as int;
    let reduced = reduced_axis(pencil, axis, start, core.plan());
    let offset = at_place(core, pencil, 0, at.0, at.1, at.2);
    let len = pencil.local_len as int;
    let count = before.extra_shape.element_count as int;
    before.lemma_active_fits();
    assert(before.active_len() == len * count);
    assert(0 * len == 0);
    assert(count * len == len * count) by (nonlinear_arith);
    law_clearing_makes_endpoints_real(
        reduced,
        before.storage@.subrange(0, before.active_len()),
        after.storage@.subrange(0, before.active_len()),
        len,
        count,
        batch,
        at.0,
        at.1,
        at.2,
    );
    lemma_rest_kept(before, after);
}

/// What lies behind the active elements is kept.
proof fn lemma_rest_kept<R: FftReal, const N: usize, const M: usize>(
    before: ManyPencilArray<Complex<R>, N, M>,
    after: ManyPencilArray<Complex<R>, N, M>,
)
    requires
        0 <= before.active_len() <= before.storage@.len(),
        front_written(before, after, before.active_len()),
    ensures
        after.storage@.len() == before.storage@.len(),
        forall|i: int|
            before.active_len() <= i < before.storage@.len() ==> #[trigger] after.storage@[i]
                == before.storage@[i],
{
    let len = before.active_len();
    let whole = before.storage@.len() as int;
    assert forall|i: int| len <= i < whole implies #[trigger] after.storage@[i] == before.storage@[i] by {
        assert(after.storage@.subrange(len, whole)[i - len] == before.storage@.subrange(len, whole)[i
            - len]);
    }
}

/// Clearing the planes of a mixed real-to-complex plan, whose blocks hold whole lines, makes the
/// values at endpoint frequencies real in every block of the batch, and touches nothing else.
pub proof fn law_mixed_planes_cleared<R: FftReal, const N: usize, const M: usize>(
    core: MixedR2cCore<N, M>,
    before: ManyPencilArray<Complex<R>, N, M>,
    after: ManyPencilArray<Complex<R>, N, M>,
    pencil: Pencil<N, M>,
    stride: usize,
    batch: int,
    at: (int, int, int),
)
    requires
        mixed_planes_done(core, before, after, Ok(())),
        core.wf(),
        before.wf(),
        before.spec_active_pencil() == Ok::<Pencil<N, M>, ArrayError>(pencil),
        pencil.stride_along(core.stages@[core.boundary as int].axis as int) == Some(stride),
        0 <= batch < before.extra_shape.element_count,
        at.0 >= 0,
        0 <= at.1 < core.plan().complex_len,
        0 <= at.2 < stride,
        (at.0 * core.plan().complex_len + at.1) * stride + at.2 < pencil.local_len,
    ensures
        ({
            let place = batch * pencil.local_len + (at.0 * core.plan().complex_len + at.1) * stride
                + at.2;
            &&& after.active == before.active
            &&& after.storage@.len() == before.storage@.len()
            &&& 0 <= place < before.storage@.len()
            &&& at.1 == 0 || 2 * at.1 == core.plan().real_len ==> {
                &&& after.storage@[place]@[0] == before.storage@[place]@[0]
                &&& after.storage@[place]@[1] == R::zero_bits()
            }
            &&& at.1 != 0 && 2 * at.1 != core.plan().real_len ==> after.storage@[place]
                == before.storage@[place]
        }),
        forall|i: int|
            pencil.local_len * before.extra_shape.element_count <= i < before.storage@.len()
                ==> #[trigger] after.storage@[i] == before.storage@[i],
{
    let reduced = ReducedAxis {
        stride,
        local_axis_len: core.plan().complex_len,
        global_axis_start: 0,
        real_len: core.plan().real_len,
        complex_len: core.plan().complex_len,
    };
    let len = pencil.local_len as int;
    let count = before.extra_shape.element_count as int;
    before.lemma_active_fits();
    assert(before.active_len() == len * count);
    assert(count * len == len * count) by (nonlinear_arith);
    law_clearing_makes_endpoints_real(
        reduced,
        before.storage@.subrange(0, before.active_len()),
        after.storage@.subrange(0, before.active_len()),
        len,
        count,
        batch,
        at.0,
        at.1,
        at.2,
    );
    lemma_rest_kept(before, after);
}

/// Every line of a mixed plan has its endpoint values among those that are measured.
proof fn lemma_grid_counted<V>(grid: PlaneGrid, block: Seq<V>, row: int, lane: int, plane: int) -> (i: int)
    requires
        grid.fits(block.len() as int),
        0 <= row < grid.groups,
        0 <= lane < grid.stride,
        0 <= plane < grid.planes,
    ensures
        0 <= i < grid.values(block).len(),
        grid.values(block)[i] == (
            plane as usize,
            block[(row * grid.complex_len + if plane == 0 {
                0
            } else {
                grid.complex_len - 1
            }) * grid.stride + lane],
        ),
{
    let planes = grid.planes as int;
    let stride = grid.stride as int;
    let i = (row * stride + lane) * planes + plane;
    lemma_coordinates(row, lane, plane, stride, planes);
    vstd::arithmetic::div_mod::lemma_fundamental_div_mod_converse(
        (row * stride + lane) * planes + plane,
        planes,
        row * stride + lane,
        plane,
    );
    vstd::arithmetic::div_mod::lemma_fundamental_div_mod_converse(
        row * stride + lane,
        stride,
        row,
        lane,
    );
    assert(i < grid.groups * stride * planes) by (nonlinear_arith)
        requires
            i == (row * stride + lane) * planes + plane,
            0 <= row < grid.groups,
            0 <= lane < stride,
            0 <= plane < planes,
    ;
    i
}

/// The values that are measured are endpoint values of lines.
proof fn lemma_counted_in_grid<V>(grid: PlaneGrid, block: Seq<V>, i: int) -> (at: (int, int, int))
    requires
        grid.fits(block.len() as int),
        0 <= i < grid.values(block).len(),
    ensures
        0 <= at.0 < grid.groups,
        0 <= at.1 < grid.stride,
        0 <= at.2 < grid.planes,
        grid.values(block)[i] == (
            at.2 as usize,
            block[(at.0 * grid.complex_len + if at.2 == 0 {
                0
            } else {
                grid.complex_len - 1
            }) * grid.stride + at.1],
        ),
{
    let planes = grid.planes as int;
    let stride = grid.stride as int;
    let at = lemma_has_coordinates(i, stride, planes);
    vstd::arithmetic::div_mod::lemma_fundamental_div_mod_converse(i, planes, at.0 * stride + at.1, at.2);
    vstd::arithmetic::div_mod::lemma_fundamental_div_mod_converse(
        at.0 * stride + at.1,
        stride,
        at.0,
        at.1,
    );
    let groups = grid.groups as int;
    if at.0 >= groups {
        assert(i >= groups * stride * planes) by (nonlinear_arith)
            requires
                i == (at.0 * stride + at.1) * planes + at.2,
                at.0 >= groups,
                at.1 >= 0,
                at.2 >= 0,
                stride > 0,
                planes > 0,
        ;
    }
    at
}

/// One alarming value at an endpoint frequency, in whichever block of the batch, is enough: the
/// spectrum of a mixed real-to-complex plan is not accepted.
pub proof fn law_mixed_alarming_endpoint_refused<S, V, A: Fn(bool) -> bool, X: Fn(&S, S, usize, V) -> S, U: Fn(S) -> S, Y: Fn(&S, S, usize, V) -> S, Z: Fn(S) -> S, J: Fn(S, S, S) -> bool, const N: usize, const M: usize>(
    core: MixedR2cCore<N, M>,
    agree: A,
    gauge: Gauge<X, U, Y, Z, J>,
    zero: S,
    policy: Result<(), FftError>,
    pencil: Pencil<N, M>,
    stride: usize,
    data: &[V],
    outcome: Result<(), MixedError>,
    alarming: spec_fn(usize, V) -> bool,
    spoiled: spec_fn(S) -> bool,
    batch: int,
    at: (int, int, int),
)
    requires
        mixed_spectrum_checked::<S, V, A, X, U, Y, Z, J, N, M>(
            core,
            agree,
            gauge,
            zero,
            policy,
            Ok((pencil, data)),
            outcome,
        ),
        core.wf(),
        pencil.wf(),
        pencil.stride_along(core.stages@[core.boundary as int].axis as int) == Some(stride),
        alarms(gauge, alarming, spoiled),
        forall|all_fine: bool| #[trigger] agree.ensures((false,), all_fine) ==> !all_fine,
        0 <= batch < core.extra_shape.element_count,
        at.0 >= 0,
        0 <= at.1 < core.plan().complex_len,
        0 <= at.2 < stride,
        (at.0 * core.plan().complex_len + at.1) * stride + at.2 < pencil.local_len,
        ({
            let value = data@[batch * pencil.local_len + (at.0 * core.plan().complex_len + at.1) * stride
                + at.2];
            ||| at.1 == 0 && alarming(0, value)
            ||| 2 * at.1 == core.plan().real_len && alarming(1, value)
        }),
    ensures
        outcome is Err,
{
    let axis = core.stages@[core.boundary as int].axis as int;
    let len = pencil.local_len as int;
    let granted = choose|granted: bool| #[trigger]
        mixed_spectrum_checked_in::<S, V, A, X, U, Y, Z, J, N, M>(
            core,
            agree,
            gauge,
            zero,
            policy,
            granted,
            Ok((pencil, data)),
            outcome,
        );
    let grid = plane_grid(pencil, axis, core.plan());
    let items = grid_values(grid, data@, len);
    let count = core.extra_shape.element_count as int;
    let plane: int = if at.1 == 0 && alarming(0, data@[batch * len + (at.0 * core.plan().complex_len + at.1) * stride + at.2]) {
        0
    } else {
        1
    };
    if lines_fill(pencil, axis, core.plan()) && count * len <= data@.len() {
        lemma_grid_fits(pencil, axis, core.plan(), stride);
        assert(0 <= batch * len && batch * len + len <= count * len) by (nonlinear_arith)
            requires
                0 <= batch < count,
                0 <= len,
        ;
        let block = data@.subrange(batch * len, batch * len + len);
        lemma_coordinates(at.0, at.1, at.2, core.plan().complex_len as int, stride as int);
        lemma_row_inside(at, core.plan().complex_len as int, stride as int, grid.groups as int, len);
        let i = lemma_grid_counted(grid, block, at.0, at.2, plane);
        let offset = (at.0 * core.plan().complex_len + at.1) * stride + at.2;
        assert(block[offset] == data@[batch * len + offset]);
        assert(items(batch) == grid.values(block));
        assert forall|own: Seq<S>, fine: bool| #[trigger]
            all_peaks_judged::<S, V, X, U, Y, Z, J>(gauge, zero, own, items, fine) && own.len() == count
            && (forall|b: int|
                0 <= b < count ==> folded(gauge.peak, zero, zero, items(b), #[trigger] own[b])) implies !fine by {
            let verdicts = choose|verdicts: Seq<bool>|
                {
                    &&& verdicts.len() == own.len()
                    &&& forall|i: int|
                        0 <= i < own.len() ==> peaks_judged::<S, V, X, U, Y, Z, J>(
                            gauge,
                            zero,
                            own[i],
                            items(i),
                            #[trigger] verdicts[i],
                        )
                    &&& fine == all_true(verdicts)
                };
            lemma_fold_spoiled(gauge, alarming, spoiled, zero, zero, items(batch), i, own[batch]);
            assert(!verdicts[batch]);
        }
    }
}

/// The lines of a block are grouped as they lie.
proof fn lemma_grid_fits<const N: usize, const M: usize>(
    pencil: Pencil<N, M>,
    axis: int,
    plan: LocalR2cPlan,
    stride: usize,
)
    requires
        pencil.wf(),
        plan.wf(),
        lines_fill(pencil, axis, plan),
        pencil.stride_along(axis) == Some(stride),
    ensures
        plane_grid(pencil, axis, plan).fits(pencil.local_len as int),
        plane_grid(pencil, axis, plan).stride == stride,
{
    let len = pencil.local_len as int;
    let block = plan.complex_len * stride;
    vstd::arithmetic::div_mod::lemma_fundamental_div_mod(len, block);
    vstd::arithmetic::div_mod::lemma_div_nonincreasing(len, block);
    vstd::arithmetic::div_mod::lemma_div_pos_is_pos(len, block);
    let groups = len / block;
    assert(groups * plan.complex_len * stride == len) by (nonlinear_arith)
        requires
            len == block * groups,
            block == plan.complex_len * stride,
    ;
    assert(stride > 0) by (nonlinear_arith)
        requires
            plan.complex_len * stride > 0,
            plan.complex_len >= 0,
            stride >= 0,
    ;
}

/// A place inside a block lies in one of its rows.
proof fn lemma_row_inside(at: (int, int, int), len: int, stride: int, groups: int, block: int)
    requires
        at.0 >= 0,
        0 <= at.1 < len,
        0 <= at.2 < stride,
        groups * len * stride == block,
        (at.0 * len + at.1) * stride + at.2 < block,
    ensures
        at.0 < groups,
{
    if at.0 >= groups {
        assert((at.0 * len + at.1) * stride + at.2 >= groups * len * stride) by (nonlinear_arith)
            requires
                at.0 >= groups,
                at.1 >= 0,
                at.2 >= 0,
                len > 0,
                stride > 0,
        ;
    }
}

/// A spectrum of a mixed real-to-complex plan without an alarming value at an endpoint frequency is
/// accepted, whatever stands at other frequencies, where the processes could measure it.
pub proof fn law_mixed_sound_endpoints_accepted<S, V, A: Fn(bool) -> bool, X: Fn(&S, S, usize, V) -> S, U: Fn(S) -> S, Y: Fn(&S, S, usize, V) -> S, Z: Fn(S) -> S, J: Fn(S, S, S) -> bool, const N: usize, const M: usize>(
    core: MixedR2cCore<N, M>,
    agree: A,
    gauge: Gauge<X, U, Y, Z, J>,
    zero: S,
    pencil: Pencil<N, M>,
    stride: usize,
    data: &[V],
    outcome: Result<(), MixedError>,
    alarming: spec_fn(usize, V) -> bool,
    sound: spec_fn(S) -> bool,
)
    requires
        mixed_spectrum_checked_in::<S, V, A, X, U, Y, Z, J, N, M>(
            core,
            agree,
            gauge,
            zero,
            Ok(()),
            true,
            Ok((pencil, data)),
            outcome,
        ),
        core.wf(),
        pencil.wf(),
        pencil.stride_along(core.stages@[core.boundary as int].axis as int) == Some(stride),
        0 < core.plan().complex_len * stride <= usize::MAX,
        pencil.local_len as int % (core.plan().complex_len * stride) == 0,
        core.extra_shape.element_count * pencil.local_len <= data@.len(),
        reassures(gauge, zero, alarming, sound),
        forall|all_fine: bool| #[trigger] agree.ensures((true,), all_fine) ==> all_fine,
        forall|batch: int, row: int, k: int, lane: int|
            #![trigger in_grid(core, pencil, stride, batch, row, k, lane)]
            0 <= batch < core.extra_shape.element_count && row >= 0 && 0 <= k < core.plan().complex_len
                && 0 <= lane < stride && in_grid(core, pencil, stride, 0, row, k, lane)
                < pencil.local_len ==> {
                let value = data@[in_grid(core, pencil, stride, batch, row, k, lane)];
                &&& k == 0 ==> !alarming(0, value)
                &&& 2 * k == core.plan().real_len ==> !alarming(1, value)
            },
    ensures
        outcome is Ok,
{
    let axis = core.stages@[core.boundary as int].axis as int;
    let len = pencil.local_len as int;
    let grid = plane_grid(pencil, axis, core.plan());
    let items = grid_values(grid, data@, len);
    let count = core.extra_shape.element_count as int;
    lemma_grid_fits(pencil, axis, core.plan(), stride);
    assert forall|batch: int, i: int| 0 <= batch < count && 0 <= i < items(batch).len() implies !alarming(
        (#[trigger] items(batch)[i]).0,
        items(batch)[i].1,
    ) by {
        assert(0 <= batch * len && batch * len + len <= count * len) by (nonlinear_arith)
            requires
                0 <= batch < count,
                0 <= len,
        ;
        let block = data@.subrange(batch * len, batch * len + len);
        assert(items(batch) == grid.values(block));
        let at = lemma_counted_in_grid(grid, block, i);
        let k: int = if at.2 == 0 {
            0
        } else {
            grid.complex_len - 1
        };
        let offset = (at.0 * grid.complex_len + k) * grid.stride + at.1;
        lemma_coordinates(at.0, k, at.1, grid.complex_len as int, grid.stride as int);
        assert(offset < len) by (nonlinear_arith)
            requires
                offset == (at.0 * grid.complex_len + k) * grid.stride + at.1,
                grid.groups * grid.complex_len * grid.stride == len,
                0 <= at.0 < grid.groups,
                0 <= k < grid.complex_len,
                0 <= at.1 < grid.stride,
        ;
        assert(0 * len == 0);
        assert(in_grid(core, pencil, stride, 0, at.0, k, at.1) == offset);
        assert(in_grid(core, pencil, stride, batch, at.0, k, at.1) == batch * len + offset);
        assert(block[offset] == data@[batch * len + offset]);
    }
    assert forall|own: Seq<S>, fine: bool| #[trigger]
        all_peaks_judged::<S, V, X, U, Y, Z, J>(gauge, zero, own, items, fine) && own.len() == count && (
    forall|b: int| 0 <= b < count ==> folded(gauge.peak, zero, zero, items(b), #[trigger] own[b])) implies fine by {
        let verdicts = choose|verdicts: Seq<bool>|
            {
                &&& verdicts.len() == own.len()
                &&& forall|i: int|
                    0 <= i < own.len() ==> peaks_judged::<S, V, X, U, Y, Z, J>(
                        gauge,
                        zero,
                        own[i],
                        items(i),
                        #[trigger] verdicts[i],
                    )
                &&& fine == all_true(verdicts)
            };
        assert forall|b: int| 0 <= b < verdicts.len() implies #[trigger] verdicts[b] by {
            lemma_fold_sound(gauge, zero, alarming, sound, zero, zero, items(b), own[b]);
        }
    }
}

/// Where the element in block `batch`, row `row`, at frequency `k` and in lane `lane` of a
/// mixed plan lies.
pub open spec fn in_grid<const N: usize, const M: usize>(
    core: MixedR2cCore<N, M>,
    pencil: Pencil<N, M>,
    stride: usize,
    batch: int,
    row: int,
    k: int,
    lane: int,
) -> int {
    batch * pencil.local_len + (row * core.plan().complex_len + k) * stride + lane
}

} // verus!
