//! What the check of the endpoint planes depends on: the planes alone.

use vstd::prelude::*;

use crate::array::ManyPencilArray;
use crate::boundary::ReducedAxis;
use crate::endpoints::reduced_axis;
use crate::error::FftError;
use crate::error::MixedError;
use crate::error::R2cError;
use crate::layout::Pencil;
use crate::lines::lemma_position_bound;
use crate::lines::lemma_position_cover;
use crate::lines::lemma_position_unique;
use crate::lines::position;
use crate::local::LocalR2cPlan;
use crate::mixed_r2c::MixedR2cCore;
use crate::r2c::TransformPlanCore;
use crate::round_trip::active_values;
use crate::scalar::Complex;
use crate::scalar::FftReal;
use crate::spectrum::all_peaks_judged;
use crate::spectrum::batch_judged;
use crate::spectrum::batch_values;
use crate::spectrum::batches_judged;
use crate::spectrum::grid_values;
use crate::spectrum::half_spectrum_checked;
use crate::spectrum::lines_fill;
use crate::spectrum::mixed_spectrum_checked_in;
use crate::spectrum::peaks_given;
use crate::spectrum::peaks_judged;
use crate::spectrum::plane_grid;
use crate::spectrum::plane_values;
use crate::spectrum::spectrum_accepted;
use crate::spectrum::Gauge;
use crate::spectrum::PlaneGrid;
use crate::station::same_registry;
use crate::world::settled;

verus! {

/// Two arrays of blocks hold the same values in the endpoint planes; elsewhere they may differ.
pub open spec fn same_planes<V>(axis: ReducedAxis, left: Seq<V>, right: Seq<V>, local_len: int) -> bool {
    &&& left.len() == right.len()
    &&& forall|i: int|
        0 <= i < left.len() && axis.plane(i % local_len) is Some ==> #[trigger] left[i] == right[i]
}

proof fn lemma_block_values<V>(
    axis: ReducedAxis,
    left: Seq<V>,
    right: Seq<V>,
    count: int,
)
    requires
        forall|i: int|
            0 <= i < count && axis.plane(i) is Some ==> #[trigger] left[i] == right[i],
    ensures
        plane_values(axis, left, count) == plane_values(axis, right, count),
    decreases count,
{
    if count > 0 {
        lemma_block_values(axis, left, right, count - 1);
        assert(axis.plane(count - 1) is Some ==> left[count - 1] == right[count - 1]);
    }
}

proof fn lemma_within_block(batch: int, batches: int, local_len: int, i: int)
    requires
        0 <= batch < batches,
        0 <= i < local_len,
    ensures
        0 <= batch * local_len,
        batch * local_len + local_len <= batches * local_len,
        (batch * local_len + i) % local_len == i,
{
    assert(0 <= batch * local_len && batch * local_len + local_len <= batches * local_len)
        by (nonlinear_arith)
        requires
            0 <= batch < batches,
            0 <= local_len,
    ;
    assert((batch * local_len + i) % local_len == i) by (nonlinear_arith)
        requires
            0 <= i < local_len,
            0 <= batch,
    ;
}

/// The endpoint values of a batch are those of its planes.
proof fn lemma_batch_values<V>(
    axis: ReducedAxis,
    left: Seq<V>,
    right: Seq<V>,
    local_len: int,
    batches: int,
    batch: int,
)
    requires
        same_planes(axis, left, right, local_len),
        0 <= local_len,
        batches * local_len <= left.len(),
        0 <= batch < batches,
    ensures
        batch_values(axis, left, local_len)(batch) == batch_values(axis, right, local_len)(batch),
{
    let from = batch * local_len;
    let a = left.subrange(from, from + local_len);
    let b = right.subrange(from, from + local_len);
    assert forall|i: int| 0 <= i < local_len && axis.plane(i) is Some implies #[trigger] a[i] == b[i] by {
        lemma_within_block(batch, batches, local_len, i);
        assert(left[from + i] == right[from + i]);
    }
    lemma_block_values(axis, a, b, local_len);
}

/// Two arrays of a real-to-complex plan that are laid out alike and hold the same endpoint planes.
pub open spec fn same_half_planes<R: FftReal, const N: usize, const M: usize>(
    core: TransformPlanCore<N, M>,
    start: usize,
    left: ManyPencilArray<Complex<R>, N, M>,
    right: ManyPencilArray<Complex<R>, N, M>,
) -> bool {
    &&& same_registry(left, right)
    &&& right.active == left.active
    &&& left.spec_active_pencil() matches Ok(pencil) ==> same_planes(
        reduced_axis(pencil, core.stages@[core.boundary as int].axis as int, start, core.plan()),
        active_values(left),
        active_values(right),
        pencil.local_len as int,
    )
}

proof fn lemma_half_check_carries_over<R: FftReal, S: Copy, A: Fn(bool) -> bool, X: Fn(&S, S, usize, Complex<R>) -> S, U: Fn(S) -> S, Y: Fn(&S, S, usize, Complex<R>) -> S, W: Fn(S) -> S, J: Fn(S, S, S) -> bool, const N: usize, const M: usize>(
    core: TransformPlanCore<N, M>,
    agree: A,
    gauge: Gauge<X, U, Y, W, J>,
    zero: S,
    start: usize,
    left: ManyPencilArray<Complex<R>, N, M>,
    right: ManyPencilArray<Complex<R>, N, M>,
    outcome: Result<(), R2cError>,
)
    requires
        left.wf(),
        right.wf(),
        same_half_planes(core, start, left, right),
        half_spectrum_checked::<R, S, A, X, U, Y, W, J, N, M>(
            core,
            agree,
            gauge,
            zero,
            start,
            left,
            outcome,
        ),
    ensures
        half_spectrum_checked::<R, S, A, X, U, Y, W, J, N, M>(
            core,
            agree,
            gauge,
            zero,
            start,
            right,
            outcome,
        ),
{
    if let Ok(pencil) = left.spec_active_pencil() {
        left.lemma_active_fits();
        right.lemma_active_fits();
        let at = core.stages@[core.boundary as int].axis as int;
        let axis = reduced_axis(pencil, at, start, core.plan());
        let len = pencil.local_len as int;
        let batches = left.extra_shape.element_count as int;
        if pencil.stride_along(at) is Some {
            assert(batches * len == left.active_len()) by (nonlinear_arith)
                requires
                    left.active_len() == len * batches,
            ;
            let a = batch_values(axis, active_values(left), len);
            let b = batch_values(axis, active_values(right), len);
            assert forall|i: int| 0 <= i < batches implies #[trigger] a(i) == b(i) by {
                lemma_batch_values(axis, active_values(left), active_values(right), len, batches, i);
            }
            let fine = choose|fine: bool|
                {
                    &&& #[trigger] batches_judged::<S, Complex<R>, X, U, Y, W, J>(
                        gauge,
                        zero,
                        a,
                        batches,
                        fine,
                    )
                    &&& spectrum_accepted(agree, fine, outcome, R2cError::InvalidSpectrum)
                };
            lemma_judged_alike::<S, Complex<R>, X, U, Y, W, J>(gauge, zero, a, b, batches, fine);
            assert(batches_judged::<S, Complex<R>, X, U, Y, W, J>(gauge, zero, b, batches, fine));
        }
    }
}

/// The check of a real-to-complex plan reads the endpoint planes alone: what it comes to for some
/// values it comes to for any that have the same planes, whatever the other bins hold.
pub proof fn law_half_check_reads_planes<R: FftReal, S: Copy, A: Fn(bool) -> bool, X: Fn(&S, S, usize, Complex<R>) -> S, U: Fn(S) -> S, Y: Fn(&S, S, usize, Complex<R>) -> S, W: Fn(S) -> S, J: Fn(S, S, S) -> bool, const N: usize, const M: usize>(
    core: TransformPlanCore<N, M>,
    agree: A,
    gauge: Gauge<X, U, Y, W, J>,
    zero: S,
    start: usize,
    left: ManyPencilArray<Complex<R>, N, M>,
    right: ManyPencilArray<Complex<R>, N, M>,
    outcome: Result<(), R2cError>,
)
    requires
        left.wf(),
        right.wf(),
        same_half_planes(core, start, left, right),
    ensures
        half_spectrum_checked::<R, S, A, X, U, Y, W, J, N, M>(
            core,
            agree,
            gauge,
            zero,
            start,
            left,
            outcome,
        ) == half_spectrum_checked::<R, S, A, X, U, Y, W, J, N, M>(
            core,
            agree,
            gauge,
            zero,
            start,
            right,
            outcome,
        ),
{
    if half_spectrum_checked::<R, S, A, X, U, Y, W, J, N, M>(
        core,
        agree,
        gauge,
        zero,
        start,
        left,
        outcome,
    ) {
        lemma_half_check_carries_over::<R, S, A, X, U, Y, W, J, N, M>(
            core,
            agree,
            gauge,
            zero,
            start,
            left,
            right,
            outcome,
        );
    } else if half_spectrum_checked::<R, S, A, X, U, Y, W, J, N, M>(
        core,
        agree,
        gauge,
        zero,
        start,
        right,
        outcome,
    ) {
        lemma_half_check_carries_over::<R, S, A, X, U, Y, W, J, N, M>(
            core,
            agree,
            gauge,
            zero,
            start,
            right,
            left,
            outcome,
        );
    }
}

proof fn lemma_judged_alike<S, V, X: Fn(&S, S, usize, V) -> S, U: Fn(S) -> S, Y: Fn(&S, S, usize, V) -> S, W: Fn(S) -> S, J: Fn(S, S, S) -> bool>(
    gauge: Gauge<X, U, Y, W, J>,
    zero: S,
    left: spec_fn(int) -> Seq<(usize, V)>,
    right: spec_fn(int) -> Seq<(usize, V)>,
    batches: int,
    fine: bool,
)
    requires
        forall|i: int| 0 <= i < batches ==> #[trigger] left(i) == right(i),
    ensures
        batches_judged::<S, V, X, U, Y, W, J>(gauge, zero, left, batches, fine)
            ==> batches_judged::<S, V, X, U, Y, W, J>(gauge, zero, right, batches, fine),
{
    if batches_judged::<S, V, X, U, Y, W, J>(gauge, zero, left, batches, fine) {
        let verdicts = choose|verdicts: Seq<bool>|
            {
                &&& verdicts.len() == batches
                &&& forall|i: int|
                    0 <= i < batches ==> batch_judged::<S, V, X, U, Y, W, J>(
                        gauge,
                        zero,
                        left(i),
                        #[trigger] verdicts[i],
                    )
                &&& fine == crate::spectrum::all_true(verdicts)
            };
        assert forall|i: int| 0 <= i < batches implies batch_judged::<S, V, X, U, Y, W, J>(
            gauge,
            zero,
            right(i),
            #[trigger] verdicts[i],
        ) by {
            assert(left(i) == right(i));
        }
    }
}

/// The planes of a mixed plan in a block, whose lines lie whole in it.
pub open spec fn whole_axis(grid: PlaneGrid, real_len: usize) -> ReducedAxis {
    ReducedAxis {
        stride: grid.stride,
        local_axis_len: grid.complex_len,
        global_axis_start: 0,
        real_len,
        complex_len: grid.complex_len,
    }
}

/// An endpoint value lies in an endpoint plane of its block.
proof fn lemma_place_in_plane(grid: PlaneGrid, real_len: usize, len: int, i: int)
    requires
        grid.fits(len),
        grid.planes == crate::boundary::spec_plane_count(real_len as int),
        0 <= i < grid.groups * grid.stride * grid.planes,
    ensures
        0 <= grid.place(i).1 < len,
        whole_axis(grid, real_len).plane(grid.place(i).1) is Some,
{
    let (planes, stride, complex_len, groups) = (
        grid.planes as int,
        grid.stride as int,
        grid.complex_len as int,
        grid.groups as int,
    );
    let plane = i % planes;
    let row = i / planes;
    let lane = row % stride;
    let group = row / stride;
    let k = if plane == 0 {
        0
    } else {
        complex_len - 1
    };
    assert(0 <= row < groups * stride) by (nonlinear_arith)
        requires
            row == i / planes,
            0 <= i < groups * stride * planes,
            planes > 0,
    ;
    assert(0 <= group < groups && 0 <= lane < stride) by (nonlinear_arith)
        requires
            group == row / stride,
            lane == row % stride,
            0 <= row < groups * stride,
            stride > 0,
    ;
    lemma_position_bound(group, lane, k, groups, complex_len, stride);
    let at = position(group, lane, k, complex_len, stride);
    lemma_position_cover(at, groups, complex_len, stride);
    lemma_position_unique(
        at / stride / complex_len,
        at % stride,
        (at / stride) % complex_len,
        group,
        lane,
        k,
        complex_len,
        stride,
    );
}

/// The endpoint values of a batch of a mixed plan are those of its planes.
proof fn lemma_grid_values<V>(
    grid: PlaneGrid,
    real_len: usize,
    left: Seq<V>,
    right: Seq<V>,
    local_len: int,
    batches: int,
    batch: int,
)
    requires
        grid.fits(local_len),
        grid.planes == crate::boundary::spec_plane_count(real_len as int),
        same_planes(whole_axis(grid, real_len), left, right, local_len),
        batches * local_len <= left.len(),
        0 <= batch < batches,
    ensures
        grid_values(grid, left, local_len)(batch) == grid_values(grid, right, local_len)(batch),
{
    let from = batch * local_len;
    let a = grid.values(left.subrange(from, from + local_len));
    let b = grid.values(right.subrange(from, from + local_len));
    assert forall|i: int| 0 <= i < a.len() implies #[trigger] a[i] == b[i] by {
        lemma_place_in_plane(grid, real_len, local_len, i);
        let at = grid.place(i).1;
        lemma_within_block(batch, batches, local_len, at);
        assert(left[from + at] == right[from + at]);
    }
    assert(a =~= b);
}

/// Where boundary lines fill the blocks of a layout, their planes fit in them.
proof fn lemma_grid_fits<const N: usize, const M: usize>(
    pencil: Pencil<N, M>,
    axis: int,
    plan: LocalR2cPlan,
)
    requires
        plan.wf(),
        lines_fill(pencil, axis, plan),
    ensures
        plane_grid(pencil, axis, plan).fits(pencil.local_len as int),
{
    let stride = pencil.stride_along(axis)->0;
    let (complex_len, len) = (plan.complex_len as int, pencil.local_len as int);
    let line = complex_len * stride;
    let groups = len / line;
    assert(groups * line == len && 0 <= groups <= len) by (nonlinear_arith)
        requires
            groups == len / line,
            len % line == 0,
            line > 0,
            len >= 0,
    ;
    assert(groups * complex_len * stride == groups * line) by (nonlinear_arith)
        requires
            line == complex_len * stride,
    ;
    assert(stride > 0) by (nonlinear_arith)
        requires
            complex_len * stride > 0,
            stride >= 0,
    ;
}

proof fn lemma_mixed_check_carries_over<S, V, A: Fn(bool) -> bool, X: Fn(&S, S, usize, V) -> S, U: Fn(S) -> S, Y: Fn(&S, S, usize, V) -> S, W: Fn(S) -> S, J: Fn(S, S, S) -> bool, const N: usize, const M: usize>(
    core: MixedR2cCore<N, M>,
    agree: A,
    gauge: Gauge<X, U, Y, W, J>,
    zero: S,
    policy: Result<(), FftError>,
    granted: bool,
    pencil: Pencil<N, M>,
    left: &[V],
    right: &[V],
    outcome: Result<(), MixedError>,
)
    requires
        core.wf(),
        pencil.wf(),
        ({
            let axis = core.stages@[core.boundary as int].axis as int;
            let grid = plane_grid(pencil, axis, core.plan());
            lines_fill(pencil, axis, core.plan()) ==> same_planes(
                whole_axis(grid, core.plan().real_len),
                left@,
                right@,
                pencil.local_len as int,
            )
        }),
        left@.len() == right@.len(),
        mixed_spectrum_checked_in::<S, V, A, X, U, Y, W, J, N, M>(
            core,
            agree,
            gauge,
            zero,
            policy,
            granted,
            Ok((pencil, left)),
            outcome,
        ),
    ensures
        mixed_spectrum_checked_in::<S, V, A, X, U, Y, W, J, N, M>(
            core,
            agree,
            gauge,
            zero,
            policy,
            granted,
            Ok((pencil, right)),
            outcome,
        ),
{
    let axis = core.stages@[core.boundary as int].axis as int;
    let grid = plane_grid(pencil, axis, core.plan());
    let len = pencil.local_len as int;
    let batches = core.extra_shape.element_count as int;
    let input: Result<(Pencil<N, M>, &[V]), MixedError> = Ok((pencil, left));
    let other: Result<(Pencil<N, M>, &[V]), MixedError> = Ok((pencil, right));
    let a = grid_values(grid, left@, len);
    let b = grid_values(grid, right@, len);
    let (local, settled_peaks) = choose|
        local: Result<Vec<S>, MixedError>,
        settled_peaks: Result<Vec<S>, MixedError>,
    |
        {
            &&& peaks_given(core, gauge.peak, zero, policy, granted, input, local)
            &&& #[trigger] settled(agree, local, settled_peaks)
            &&& match settled_peaks {
                Err(error) => outcome == Err::<(), MixedError>(error),
                Ok(own) => input is Ok && exists|fine: bool|
                    {
                        &&& #[trigger] all_peaks_judged::<S, V, X, U, Y, W, J>(
                            gauge,
                            zero,
                            own@,
                            grid_values(
                                plane_grid(
                                    input->Ok_0.0,
                                    core.stages@[core.boundary as int].axis as int,
                                    core.plan(),
                                ),
                                input->Ok_0.1@,
                                input->Ok_0.0.local_len as int,
                            ),
                            fine,
                        )
                        &&& spectrum_accepted(agree, fine, outcome, MixedError::InvalidSpectrum)
                    },
            }
        };
    if lines_fill(pencil, axis, core.plan()) && batches * len <= left@.len() {
        lemma_grid_fits(pencil, axis, core.plan());
        assert forall|i: int| 0 <= i < batches implies #[trigger] a(i) == b(i) by {
            lemma_grid_values(grid, core.plan().real_len, left@, right@, len, batches, i);
        }
    }
    assert(peaks_given(core, gauge.peak, zero, policy, granted, other, local)) by {
        if lines_fill(pencil, axis, core.plan()) && policy is Ok && granted && batches * len
            <= left@.len() {
            let peaks = local->Ok_0;
            assert forall|i: int| 0 <= i < batches implies crate::spectrum::folded(
                gauge.peak,
                zero,
                zero,
                b(i),
                #[trigger] peaks@[i],
            ) by {
                assert(a(i) == b(i));
            }
        }
    }
    if let Ok(own) = settled_peaks {
        assert(local == settled_peaks);
        let fine = choose|fine: bool|
            {
                &&& #[trigger] all_peaks_judged::<S, V, X, U, Y, W, J>(gauge, zero, own@, a, fine)
                &&& spectrum_accepted(agree, fine, outcome, MixedError::InvalidSpectrum)
            };
        let verdicts = choose|verdicts: Seq<bool>|
            {
                &&& verdicts.len() == own@.len()
                &&& forall|i: int|
                    0 <= i < own@.len() ==> peaks_judged::<S, V, X, U, Y, W, J>(
                        gauge,
                        zero,
                        own@[i],
                        a(i),
                        #[trigger] verdicts[i],
                    )
                &&& fine == crate::spectrum::all_true(verdicts)
            };
        assert forall|i: int| 0 <= i < own@.len() implies peaks_judged::<S, V, X, U, Y, W, J>(
            gauge,
            zero,
            own@[i],
            b(i),
            #[trigger] verdicts[i],
        ) by {
            assert(a(i) == b(i));
        }
        assert(all_peaks_judged::<S, V, X, U, Y, W, J>(gauge, zero, own@, b, fine));
    }
}

/// The check of a mixed plan reads the endpoint planes alone: what it comes to for some values it
/// comes to for any that have the same planes, whatever the other bins hold.
pub proof fn law_mixed_check_reads_planes<S, V, A: Fn(bool) -> bool, X: Fn(&S, S, usize, V) -> S, U: Fn(S) -> S, Y: Fn(&S, S, usize, V) -> S, W: Fn(S) -> S, J: Fn(S, S, S) -> bool, const N: usize, const M: usize>(
    core: MixedR2cCore<N, M>,
    agree: A,
    gauge: Gauge<X, U, Y, W, J>,
    zero: S,
    policy: Result<(), FftError>,
    granted: bool,
    pencil: Pencil<N, M>,
    left: &[V],
    right: &[V],
    outcome: Result<(), MixedError>,
)
    requires
        core.wf(),
        pencil.wf(),
        left@.len() == right@.len(),
        ({
            let axis = core.stages@[core.boundary as int].axis as int;
            let grid = plane_grid(pencil, axis, core.plan());
            lines_fill(pencil, axis, core.plan()) ==> same_planes(
                whole_axis(grid, core.plan().real_len),
                left@,
                right@,
                pencil.local_len as int,
            )
        }),
    ensures
        mixed_spectrum_checked_in::<S, V, A, X, U, Y, W, J, N, M>(
            core,
            agree,
            gauge,
            zero,
            policy,
            granted,
            Ok((pencil, left)),
            outcome,
        ) == mixed_spectrum_checked_in::<S, V, A, X, U, Y, W, J, N, M>(
            core,
            agree,
            gauge,
            zero,
            policy,
            granted,
            Ok((pencil, right)),
            outcome,
        ),
{
    if mixed_spectrum_checked_in::<S, V, A, X, U, Y, W, J, N, M>(
        core,
        agree,
        gauge,
        zero,
        policy,
        granted,
        Ok((pencil, left)),
        outcome,
    ) {
        lemma_mixed_check_carries_over::<S, V, A, X, U, Y, W, J, N, M>(
            core,
            agree,
            gauge,
            zero,
            policy,
            granted,
            pencil,
            left,
            right,
            outcome,
        );
    } else if mixed_spectrum_checked_in::<S, V, A, X, U, Y, W, J, N, M>(
        core,
        agree,
        gauge,
        zero,
        policy,
        granted,
        Ok((pencil, right)),
        outcome,
    ) {
        lemma_mixed_check_carries_over::<S, V, A, X, U, Y, W, J, N, M>(
            core,
            agree,
            gauge,
            zero,
            policy,
            granted,
            pencil,
            right,
            left,
            outcome,
        );
    }
}

} // verus!
