//! A stage calls its kernel on every line along its axis, and the lines lie where the layout
//! puts them.

use vstd::prelude::*;

use crate::error::FftError;
use crate::error::LocalC2cError;
use crate::error::LocalR2cError;
use crate::error::LocalR2rError;
use crate::error::R2cError;
use crate::fits::lemma_axis_placed;
use crate::kernels::complex_done;
use crate::kernels::ComplexStation;
use crate::kernels::ForwardCrossing;
use crate::kernels::MixedComplexStation;
use crate::kernels::MixedForwardCrossing;
use crate::kernels::MixedRealStation;
use crate::kernels::MixedReverseCrossing;
use crate::kernels::R2rStation;
use crate::kernels::ReverseCrossing;
use crate::layout::lemma_product_split;
use crate::layout::product;
use crate::layout::Pencil;
use crate::lines::line_at;
use crate::lines::line_maps;
use crate::local::LocalTransform;
use crate::local::MixedComplexLocal;
use crate::local::MixedRealLocal;
use crate::local::R2rLocal;
use crate::scalar::Complex;
use crate::stages::boundary_forward_lens;
use crate::stages::boundary_reverse_lens;
use crate::stages::complex_lens;
use crate::stages::mixed_r2r_lens;
use crate::stages::r2r_lens;
use crate::stages::LocalError;
use crate::station::Station;
use crate::sweep::swept;
use crate::sweep::SweepLens;
use crate::world::lifted;

verus! {

/// The kernel was called on a line and gave another.
pub open spec fn called<A, B, E, F: Fn(&[A], usize) -> Result<Vec<B>, E>>(
    kernel: F,
    line: Seq<A>,
    result: Seq<B>,
) -> bool {
    exists|input: &[A], len: usize, output: Vec<B>| #[trigger]
        kernel.ensures((input, len), Ok(output)) && input@ == line && output@ == result && len
            == result.len()
}

/// The elements that lie `stride` apart in a row of lines, from lane `lane` on.
pub open spec fn lane_of<T>(data: Seq<T>, row: int, lane: int, len: int, stride: int) -> Seq<T> {
    Seq::new(len as nat, |k: int| data[row * (len * stride) + k * stride + lane])
}

/// The result is the source with the kernel called along an axis whose neighbours lie `stride`
/// apart: on all lines at once where they lie in one piece, else on each line by itself.
pub open spec fn goes_along<A, B, E, F: Fn(&[A], usize) -> Result<Vec<B>, E>>(
    kernel: F,
    stride: int,
    lens: (int, int),
    source: Seq<A>,
    result: Seq<B>,
) -> bool {
    &&& stride <= 1 ==> called::<A, B, E, F>(kernel, source, result)
    &&& stride > 1 && source.len() > 0 ==> {
        &&& lens.0 > 0
        &&& source.len() as int % (lens.0 * stride) == 0
        &&& result.len() == source.len() as int / (lens.0 * stride) * (lens.1 * stride)
        &&& forall|row: int, lane: int|
            0 <= row < source.len() as int / (lens.0 * stride) && 0 <= lane < stride ==> called::<A, B, E, F>(
                kernel,
                #[trigger] lane_of(source, row, lane, lens.0, stride),
                lane_of(result, row, lane, lens.1, stride),
            )
    }
}

/// A line is the elements of a lane.
pub proof fn lemma_lane<T>(data: Seq<T>, row: int, lane: int, len: int, stride: int)
    requires
        len >= 0,
    ensures
        line_at(data, row, lane, len as nat, stride) == lane_of(data, row, lane, len, stride),
{
    assert forall|k: int| 0 <= k < len implies #[trigger] line_at(data, row, lane, len as nat, stride)[k]
        == lane_of(data, row, lane, len, stride)[k] by {
        assert((row * len + k) * stride + lane == row * (len * stride) + k * stride + lane)
            by (nonlinear_arith);
    }
    assert(line_at(data, row, lane, len as nat, stride) =~= lane_of(data, row, lane, len, stride));
}

/// A kernel that may turn one line into another was called on it.
pub proof fn lemma_called<A, B, E, F: Fn(&[A], usize) -> Result<Vec<B>, E>>(
    kernel: F,
    source: Seq<A>,
    result: Seq<B>,
)
    requires
        line_maps::<A, B, E, F>(kernel, source, result),
    ensures
        called::<A, B, E, F>(kernel, source, result),
{
    let (input, len, output) = choose|input: &[A], len: usize, output: Vec<B>|
        input@ == source && output@ == result && len == result.len() && #[trigger] kernel.ensures(
            (input, len),
            Ok(output),
        );
    assert(kernel.ensures((input, len), Ok(output)));
}

/// A sweep that succeeds calls the kernel on every line along the axis, and every line of the
/// result is what the kernel gave for that line.
pub proof fn law_sweep_goes_along<A, B, E, F: Fn(&[A], usize) -> Result<Vec<B>, E>>(
    kernel: F,
    stride: Option<usize>,
    source: Seq<A>,
    original: Seq<B>,
    result: Seq<B>,
    line: usize,
    lens: SweepLens,
)
    requires
        swept::<A, B, E, F>(kernel, stride, source, original, result, line, lens, Ok(())),
    ensures
        stride is Some,
        result.len() == original.len(),
        goes_along::<A, B, E, F>(
            kernel,
            stride->0 as int,
            (lens.source_len as int, lens.result_len as int),
            source,
            result,
        ),
{
    let step = stride->0 as int;
    let source_len = lens.source_len as int;
    let result_len = lens.result_len as int;
    if step <= 1 {
        lemma_called::<A, B, E, F>(kernel, source, result);
    } else if source.len() > 0 {
        let count = source.len() as int / (source_len * step);
        assert(source_len > 0) by (nonlinear_arith)
            requires
                source_len * step != 0,
                source_len >= 0,
        ;
        assert(count * result_len * step == count * (result_len * step)) by (nonlinear_arith);
        assert forall|row: int, lane: int| 0 <= row < count && 0 <= lane < step implies called::<A, B, E, F>(
            kernel,
            #[trigger] lane_of(source, row, lane, source_len, step),
            lane_of(result, row, lane, result_len, step),
        ) by {
            lemma_lane(source, row, lane, source_len, step);
            lemma_lane(result, row, lane, result_len, step);
            assert(line_maps::<A, B, E, F>(
                kernel,
                line_at(source, row, lane, lens.source_len as nat, step),
                line_at(result, row, lane, lens.result_len as nat, step),
            ));
            lemma_called::<A, B, E, F>(
                kernel,
                lane_of(source, row, lane, source_len, step),
                lane_of(result, row, lane, result_len, step),
            );
        }
    }
}

/// A real-to-real or Hartley stage that succeeds leaves what it was given where it has no
/// kernel, else what the kernel gives along its axis.
pub proof fn law_r2r_station_goes_along<T: Copy, F: Fn(&[T], usize) -> Result<Vec<T>, LocalR2rError>, const N: usize, const M: usize>(
    station: R2rStation<F, N, M>,
    source: Seq<T>,
    original: Seq<T>,
    result: Seq<T>,
    line: usize,
)
    requires
        station.leaves(source, original, result, line, Ok(())),
    ensures
        match station.local {
            R2rLocal::Identity => result == source,
            R2rLocal::Transform(plan) => {
                &&& station.pencil.stride_along(station.axis as int) is Some
                &&& goes_along::<T, T, LocalR2rError, F>(
                    *station.kernel,
                    station.pencil.stride_along(station.axis as int)->0 as int,
                    (plan.line_len as int, plan.line_len as int),
                    source,
                    result,
                )
            },
            R2rLocal::Hartley(plan) => {
                &&& station.pencil.stride_along(station.axis as int) is Some
                &&& goes_along::<T, T, LocalR2rError, F>(
                    *station.kernel,
                    station.pencil.stride_along(station.axis as int)->0 as int,
                    (plan.line_len as int, plan.line_len as int),
                    source,
                    result,
                )
            },
        },
{
    if let Some(plan) = station.local.plan() {
        law_sweep_goes_along::<T, T, LocalR2rError, F>(
            *station.kernel,
            station.pencil.stride_along(station.axis as int),
            source,
            original,
            result,
            line,
            r2r_lens(plan, line),
        );
    }
}

/// A complex stage of a mixed plan that succeeds leaves what it was given where it has no
/// kernel, else what the kernel gives along its axis.
pub proof fn law_mixed_station_goes_along<T: Copy, F: Fn(&[T], usize) -> Result<Vec<T>, LocalError>, const N: usize, const M: usize>(
    station: MixedComplexStation<F, N, M>,
    source: Seq<T>,
    original: Seq<T>,
    result: Seq<T>,
    line: usize,
)
    requires
        station.leaves(source, original, result, line, Ok(())),
    ensures
        match station.local {
            MixedComplexLocal::Identity => result == source,
            MixedComplexLocal::Fft(plan) => {
                &&& station.pencil.stride_along(station.axis as int) is Some
                &&& goes_along::<T, T, LocalError, F>(
                    *station.kernel,
                    station.pencil.stride_along(station.axis as int)->0 as int,
                    (plan.line_len as int, plan.line_len as int),
                    source,
                    result,
                )
            },
            MixedComplexLocal::R2r(plan) => {
                &&& station.pencil.stride_along(station.axis as int) is Some
                &&& goes_along::<T, T, LocalError, F>(
                    *station.kernel,
                    station.pencil.stride_along(station.axis as int)->0 as int,
                    (plan.plan().line_len as int, plan.plan().line_len as int),
                    source,
                    result,
                )
            },
        },
{
    match station.local {
        MixedComplexLocal::Identity => {},
        MixedComplexLocal::Fft(plan) => {
            law_sweep_goes_along::<T, T, LocalError, F>(
                *station.kernel,
                station.pencil.stride_along(station.axis as int),
                source,
                original,
                result,
                line,
                complex_lens(plan, line),
            );
        },
        MixedComplexLocal::R2r(plan) => {
            law_sweep_goes_along::<T, T, LocalError, F>(
                *station.kernel,
                station.pencil.stride_along(station.axis as int),
                source,
                original,
                result,
                line,
                mixed_r2r_lens(plan.plan(), line),
            );
        },
    }
}

/// A real stage of a mixed plan that succeeds leaves what it was given where it has no kernel, else
/// what the kernel gives along its axis.
pub proof fn law_prefix_station_goes_along<T: Copy, F: Fn(&[T], usize) -> Result<Vec<T>, LocalError>, const N: usize, const M: usize>(
    station: MixedRealStation<F, N, M>,
    source: Seq<T>,
    original: Seq<T>,
    result: Seq<T>,
    line: usize,
)
    requires
        station.leaves(source, original, result, line, Ok(())),
    ensures
        match station.local {
            MixedRealLocal::Identity => result == source,
            MixedRealLocal::R2r(plan) => {
                &&& station.pencil.stride_along(station.axis as int) is Some
                &&& goes_along::<T, T, LocalError, F>(
                    *station.kernel,
                    station.pencil.stride_along(station.axis as int)->0 as int,
                    (plan.plan().line_len as int, plan.plan().line_len as int),
                    source,
                    result,
                )
            },
            MixedRealLocal::Rfft(_) => false,
        },
{
    if let MixedRealLocal::R2r(plan) = station.local {
        law_sweep_goes_along::<T, T, LocalError, F>(
            *station.kernel,
            station.pencil.stride_along(station.axis as int),
            source,
            original,
            result,
            line,
            mixed_r2r_lens(plan.plan(), line),
        );
    }
}

/// A complex stage of a real-to-complex plan that succeeds leaves what it was given where it has no
/// kernel, else what the kernel gives along its axis.
pub proof fn law_tail_station_goes_along<T: Copy, F: Fn(&[T], usize) -> Result<Vec<T>, LocalC2cError>, const N: usize, const M: usize>(
    station: ComplexStation<F, N, M>,
    source: Seq<T>,
    original: Seq<T>,
    result: Seq<T>,
    line: usize,
)
    requires
        station.leaves(source, original, result, line, Ok(())),
    ensures
        match station.local {
            LocalTransform::Identity => result == source,
            LocalTransform::Complex(plan) => {
                &&& station.pencil.stride_along(station.axis as int) is Some
                &&& goes_along::<T, T, LocalC2cError, F>(
                    *station.kernel,
                    station.pencil.stride_along(station.axis as int)->0 as int,
                    (plan.line_len as int, plan.line_len as int),
                    source,
                    result,
                )
            },
            LocalTransform::RealComplex(_) => false,
        },
{
    let local = choose|local: Result<(), FftError>|
        {
            &&& #[trigger] complex_done::<T, F>(
                station.local,
                *station.kernel,
                station.pencil.stride_along(station.axis as int),
                source,
                original,
                result,
                line,
                local,
            )
            &&& Ok::<(), R2cError>(()) == lifted::<(), R2cError>(local)
        };
    match local {
        Ok(done) => {
            assert(local == Ok::<(), FftError>(()));
        },
        Err(_) => {},
    }
    if let LocalTransform::Complex(plan) = station.local {
        law_sweep_goes_along::<T, T, LocalC2cError, F>(
            *station.kernel,
            station.pencil.stride_along(station.axis as int),
            source,
            original,
            result,
            line,
            complex_lens(plan, line),
        );
    }
}

/// The boundary of a real-to-complex plan gives for each line of reals the line of half as many
/// complex values and one more that the kernel gives.
pub proof fn law_forward_crossing_goes_along<R: Copy, F: Fn(&[R], usize) -> Result<Vec<Complex<R>>, LocalR2cError>, const N: usize, const M: usize>(
    station: ForwardCrossing<F, N, M>,
    source: Seq<R>,
    original: Seq<Complex<R>>,
    result: Seq<Complex<R>>,
    line: usize,
)
    requires
        station.leaves(source, original, result, line, Ok(())),
    ensures
        station.pencil.stride_along(station.axis as int) is Some,
        goes_along::<R, Complex<R>, LocalR2cError, F>(
            *station.kernel,
            station.pencil.stride_along(station.axis as int)->0 as int,
            (station.plan.real_len as int, station.plan.complex_len as int),
            source,
            result,
        ),
{
    law_sweep_goes_along::<R, Complex<R>, LocalR2cError, F>(
        *station.kernel,
        station.pencil.stride_along(station.axis as int),
        source,
        original,
        result,
        line,
        boundary_forward_lens(station.plan, station.result_line),
    );
}

/// The boundary of a real-to-complex plan gives on the way back for each half-complex line the
/// line of reals that the kernel gives.
pub proof fn law_reverse_crossing_goes_along<R: Copy, F: Fn(&[Complex<R>], usize) -> Result<Vec<R>, LocalR2cError>, const N: usize, const M: usize>(
    station: ReverseCrossing<F, N, M>,
    source: Seq<Complex<R>>,
    original: Seq<R>,
    result: Seq<R>,
    line: usize,
)
    requires
        station.leaves(source, original, result, line, Ok(())),
    ensures
        station.pencil.stride_along(station.axis as int) is Some,
        goes_along::<Complex<R>, R, LocalR2cError, F>(
            *station.kernel,
            station.pencil.stride_along(station.axis as int)->0 as int,
            (station.plan.complex_len as int, station.plan.real_len as int),
            source,
            result,
        ),
{
    law_sweep_goes_along::<Complex<R>, R, LocalR2cError, F>(
        *station.kernel,
        station.pencil.stride_along(station.axis as int),
        source,
        original,
        result,
        line,
        boundary_reverse_lens(station.plan, station.result_line),
    );
}

/// The boundary of a mixed real-to-complex plan gives for each line of reals the line of half
/// as many complex values and one more that the kernel gives.
pub proof fn law_mixed_forward_crossing_goes_along<R: Copy, F: Fn(&[R], usize) -> Result<Vec<Complex<R>>, LocalError>, const N: usize, const M: usize>(
    station: MixedForwardCrossing<F, N, M>,
    source: Seq<R>,
    original: Seq<Complex<R>>,
    result: Seq<Complex<R>>,
    line: usize,
)
    requires
        station.leaves(source, original, result, line, Ok(())),
    ensures
        station.pencil.stride_along(station.axis as int) is Some,
        goes_along::<R, Complex<R>, LocalError, F>(
            *station.kernel,
            station.pencil.stride_along(station.axis as int)->0 as int,
            (station.plan.real_len as int, station.plan.complex_len as int),
            source,
            result,
        ),
{
    law_sweep_goes_along::<R, Complex<R>, LocalError, F>(
        *station.kernel,
        station.pencil.stride_along(station.axis as int),
        source,
        original,
        result,
        line,
        boundary_forward_lens(station.plan, station.result_line),
    );
}

/// The boundary of a mixed real-to-complex plan gives on the way back for each half-complex
/// line the line of reals that the kernel gives.
pub proof fn law_mixed_reverse_crossing_goes_along<R: Copy, F: Fn(&[Complex<R>], usize) -> Result<Vec<R>, LocalError>, const N: usize, const M: usize>(
    station: MixedReverseCrossing<F, N, M>,
    source: Seq<Complex<R>>,
    original: Seq<R>,
    result: Seq<R>,
    line: usize,
)
    requires
        station.leaves(source, original, result, line, Ok(())),
    ensures
        station.pencil.stride_along(station.axis as int) is Some,
        goes_along::<Complex<R>, R, LocalError, F>(
            *station.kernel,
            station.pencil.stride_along(station.axis as int)->0 as int,
            (station.plan.complex_len as int, station.plan.real_len as int),
            source,
            result,
        ),
{
    law_sweep_goes_along::<Complex<R>, R, LocalError, F>(
        *station.kernel,
        station.pencil.stride_along(station.axis as int),
        source,
        original,
        result,
        line,
        boundary_reverse_lens(station.plan, station.result_line),
    );
}

/// Where an element lies whose coordinates are given from the slowest to the fastest.
pub open spec fn flat(extents: Seq<usize>, coordinates: Seq<int>) -> int
    decreases extents.len(),
{
    if extents.len() == 0 {
        0
    } else {
        flat(extents.drop_last(), coordinates.drop_last()) * extents.last() + coordinates.last()
    }
}

/// The coordinates by axis, from the slowest to the fastest in memory.
pub open spec fn in_memory<const N: usize, const M: usize>(
    pencil: Pencil<N, M>,
    coordinates: Seq<int>,
) -> Seq<int> {
    Seq::new(N as nat, |p: int| coordinates[pencil.memory_order@[p] as int])
}

proof fn lemma_flat_step(extents: Seq<usize>, coordinates: Seq<int>, p: int, by: int)
    requires
        extents.len() == coordinates.len(),
        0 <= p < extents.len(),
    ensures
        flat(extents, coordinates.update(p, coordinates[p] + by)) == flat(extents, coordinates) + by
            * product(extents.skip(p + 1)),
    decreases extents.len(),
{
    let moved = coordinates.update(p, coordinates[p] + by);
    let last = extents.len() - 1;
    if p == last {
        assert(moved.drop_last() =~= coordinates.drop_last());
        assert(extents.skip(p + 1) =~= Seq::<usize>::empty());
        assert(product(extents.skip(p + 1)) == 1);
    } else {
        assert(moved.drop_last() =~= coordinates.drop_last().update(p, coordinates.drop_last()[p] + by));
        lemma_flat_step(extents.drop_last(), coordinates.drop_last(), p, by);
        let behind = extents.skip(p + 1);
        lemma_product_split(behind, behind.len() - 1);
        assert(behind.take(behind.len() - 1) =~= extents.drop_last().skip(p + 1));
        assert(behind.skip(behind.len() as int) =~= Seq::<usize>::empty());
        assert(product(behind.skip(behind.len() as int)) == 1);
        assert(behind[behind.len() - 1] == extents.last());
        let a = flat(extents.drop_last(), coordinates.drop_last());
        let b = product(extents.drop_last().skip(p + 1)) as int;
        let e = extents.last() as int;
        assert((a + by * b) * e == a * e + by * (b * e * 1)) by (nonlinear_arith);
    }
}

/// The stride along an axis is how far apart elements lie whose coordinates differ in that axis by
/// one, in the order of the layout's memory.
pub proof fn law_stride_is_neighbour_distance<const N: usize, const M: usize>(
    pencil: Pencil<N, M>,
    axis: int,
    coordinates: Seq<int>,
    by: int,
)
    requires
        pencil.wf(),
        0 <= axis < N,
        coordinates.len() == N,
        pencil.stride_along(axis) is Some,
    ensures
        flat(
            Seq::new(N as nat, |p: int| pencil.local_shape@[pencil.memory_order@[p] as int]),
            in_memory(pencil, coordinates.update(axis, coordinates[axis] + by)),
        ) == flat(
            Seq::new(N as nat, |p: int| pencil.local_shape@[pencil.memory_order@[p] as int]),
            in_memory(pencil, coordinates),
        ) + by * pencil.stride_along(axis)->0,
{
    let extents = Seq::new(N as nat, |p: int| pencil.local_shape@[pencil.memory_order@[p] as int]);
    let p = lemma_axis_placed(pencil, axis);
    pencil.lemma_axis_position(axis, p);
    assert(extents =~= pencil.memory_extents());
    let old_place = in_memory(pencil, coordinates);
    let new_place = in_memory(pencil, coordinates.update(axis, coordinates[axis] + by));
    assert forall|q: int| 0 <= q < N implies new_place[q] == old_place.update(p, old_place[p] + by)[q] by {
        if q != p {
            if q < p {
                assert(pencil.memory_order@[q] != pencil.memory_order@[p]);
            } else {
                assert(pencil.memory_order@[p] != pencil.memory_order@[q]);
            }
        }
    }
    assert(new_place =~= old_place.update(p, old_place[p] + by));
    lemma_flat_step(extents, old_place, p, by);
    assert(pencil.strides_fit(p));
    assert(product(pencil.memory_extents().skip(p + 1)) <= usize::MAX);
}

/// A block has room for all its elements and no more: places of elements count up to its length.
pub proof fn law_block_holds_all<const N: usize, const M: usize>(
    pencil: Pencil<N, M>,
    coordinates: Seq<int>,
)
    requires
        pencil.wf(),
        coordinates.len() == N,
        forall|axis: int|
            0 <= axis < N ==> 0 <= #[trigger] coordinates[axis] < pencil.local_shape@[axis],
    ensures
        0 <= flat(
            Seq::new(N as nat, |p: int| pencil.local_shape@[pencil.memory_order@[p] as int]),
            in_memory(pencil, coordinates),
        ) < pencil.local_len,
{
    let extents = Seq::new(N as nat, |p: int| pencil.local_shape@[pencil.memory_order@[p] as int]);
    assert(extents =~= pencil.memory_extents());
    let places = in_memory(pencil, coordinates);
    assert forall|p: int| 0 <= p < N implies 0 <= #[trigger] places[p] < extents[p] by {
        let axis = pencil.memory_order@[p] as int;
        assert(0 <= coordinates[axis] < pencil.local_shape@[axis]);
    }
    lemma_flat_bound(extents, places);
}

proof fn lemma_flat_bound(extents: Seq<usize>, places: Seq<int>)
    requires
        extents.len() == places.len(),
        forall|p: int| 0 <= p < extents.len() ==> 0 <= #[trigger] places[p] < extents[p],
    ensures
        0 <= flat(extents, places) < product(extents),
    decreases extents.len(),
{
    if extents.len() > 0 {
        let front = extents.drop_last();
        assert forall|p: int| 0 <= p < front.len() implies 0 <= #[trigger] places.drop_last()[p] < front[p] by {
            assert(0 <= places[p] < extents[p]);
        }
        lemma_flat_bound(front, places.drop_last());
        let last = extents.len() - 1;
        lemma_product_split(extents, last);
        assert(extents.take(last) =~= front);
        assert(extents.skip(last + 1) =~= Seq::<usize>::empty());
        assert(product(extents.skip(last + 1)) == 1);
        assert(0 <= places[last] < extents[last]);
        let a = flat(front, places.drop_last());
        let b = product(front) as int;
        let e = extents[last] as int;
        let c = places[last];
        assert(0 <= a * e + c < b * e * 1) by (nonlinear_arith)
            requires
                0 <= a < b,
                0 <= c < e,
        ;
    }
}

} // verus!
