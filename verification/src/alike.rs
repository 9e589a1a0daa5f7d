//! Executions of one plan by different crews: equal kernels and exchanges make equal values.

use vstd::prelude::*;

use crate::array::ManyPencilArray;
use crate::carrier::Load;
use crate::error::FftError;
use crate::error::LocalC2cError;
use crate::error::LocalR2cError;
use crate::error::MixedError;
use crate::error::R2cError;
use crate::inspect::Inspector;
use crate::kernels::ComplexStation;
use crate::kernels::ForwardCrossing;
use crate::kernels::MixedComplexStation;
use crate::kernels::MixedForwardCrossing;
use crate::kernels::MixedRealStation;
use crate::kernels::MixedReverseCrossing;
use crate::kernels::ReverseCrossing;
use crate::laws::lemma_same_lines;
use crate::layout::Direction;
use crate::lines::line_at;
use crate::lines::line_maps;
use crate::local::LocalTransform;
use crate::local::MixedComplexLocal;
use crate::local::MixedRealLocal;
use crate::round_trip::active_values;
use crate::round_trip::maps;
use crate::scalar::Complex;
use crate::scalar::FftReal;
use crate::stages::boundary_forward_lens;
use crate::stages::boundary_reverse_lens;
use crate::stages::complex_lens;
use crate::stages::mixed_r2r_lens;
use crate::stages::LocalError;
use crate::station::Station;
use crate::sweep::swept;
use crate::sweep::SweepLens;
use crate::transition::Passage;
use crate::transition::Transition;

verus! {

/// Two kernels make the same of a line. A kernel whose result rests on nothing but its line makes
/// the same as itself.
pub open spec fn makes_alike<A, B, E, F: Fn(&[A], usize) -> Result<Vec<B>, E>, G: Fn(&[A], usize) -> Result<Vec<B>, E>>(
    left: F,
    right: G,
) -> bool {
    forall|source: Seq<A>, one: Seq<B>, other: Seq<B>|
        #![trigger line_maps::<A, B, E, F>(left, source, one), line_maps::<A, B, E, G>(right, source, other)]
        line_maps::<A, B, E, F>(left, source, one) && line_maps::<A, B, E, G>(
            right,
            source,
            other,
        ) ==> one == other
}

/// The kernels of each stage make the same of a line.
pub open spec fn kernels_alike<A, B, E, F: Fn(&[A], usize) -> Result<Vec<B>, E>, G: Fn(&[A], usize) -> Result<Vec<B>, E>>(
    left: Seq<F>,
    right: Seq<G>,
) -> bool {
    forall|i: int|
        0 <= i < left.len() ==> makes_alike::<A, B, E, F, G>(#[trigger] left[i], right[i])
}

/// The exchanges that succeed move equal values alike.
pub open spec fn exchanges_alike<T, X: Fn(usize, Passage, Load<T, N, M>) -> (Load<T, N, M>, Result<(), FftError>), Z: Fn(usize, Passage, Load<T, N, M>) -> (Load<T, N, M>, Result<(), FftError>), const N: usize, const M: usize>(
    left: X,
    right: Z,
    transitions: Seq<Transition>,
    direction: Direction,
) -> bool {
    forall|
        index: usize,
        a: Load<T, N, M>,
        b: Load<T, N, M>,
        c: Load<T, N, M>,
        d: Load<T, N, M>,
    |
        index < transitions.len() && #[trigger] left.ensures(
            (index, transitions[index as int].spec_passage(direction), a),
            (b, Ok(())),
        ) && #[trigger] right.ensures(
            (index, transitions[index as int].spec_passage(direction), c),
            (d, Ok(())),
        ) && active_values(a.0) == active_values(c.0) ==> active_values(b.0) == active_values(d.0)
}

/// The work of two stages makes the same of values.
pub open spec fn works_alike<A, B, E, S: Station<A, B, E>, H: Station<A, B, E>>(
    left: S,
    right: H,
) -> bool {
    forall|source: Seq<A>, one: Seq<B>, other: Seq<B>|
        #![trigger maps::<A, B, E, S>(left, source, one), maps::<A, B, E, H>(right, source, other)]
        maps::<A, B, E, S>(left, source, one) && maps::<A, B, E, H>(right, source, other) ==> one
            == other
}

/// Two sweeps of the same values with kernels that make the same of a line make the same.
pub proof fn law_sweep_alike<A, B, E, F: Fn(&[A], usize) -> Result<Vec<B>, E>, G: Fn(&[A], usize) -> Result<Vec<B>, E>>(
    kernels: (F, G),
    stride: Option<usize>,
    source: Seq<A>,
    originals: (Seq<B>, Seq<B>),
    results: (Seq<B>, Seq<B>),
    lines: (usize, usize),
    lens: (SweepLens, SweepLens),
)
    requires
        makes_alike::<A, B, E, F, G>(kernels.0, kernels.1),
        lens.0.source_len == lens.1.source_len,
        lens.0.result_len == lens.1.result_len,
        lens.0.call_when_empty == lens.1.call_when_empty,
        swept::<A, B, E, F>(
            kernels.0,
            stride,
            source,
            originals.0,
            results.0,
            lines.0,
            lens.0,
            Ok(()),
        ),
        swept::<A, B, E, G>(
            kernels.1,
            stride,
            source,
            originals.1,
            results.1,
            lines.1,
            lens.1,
            Ok(()),
        ),
    ensures
        results.0 == results.1,
{
    let step = stride->0;
    if step <= 1 || (lens.0.call_when_empty && source.len() == 0) {
        assert(line_maps::<A, B, E, F>(kernels.0, source, results.0));
        assert(line_maps::<A, B, E, G>(kernels.1, source, results.1));
    } else {
        let source_len = lens.0.source_len as nat;
        let len = lens.0.result_len as nat;
        let count = source.len() as int / (source_len * step);
        assert(results.0.len() == count * len * step);
        assert(results.1.len() == count * len * step);
        assert forall|p: int, q: int| 0 <= p < count && 0 <= q < step implies #[trigger] line_at(
            results.0,
            p,
            q,
            len,
            step as int,
        ) == line_at(results.1, p, q, len, step as int) by {
            let line = line_at(source, p, q, source_len, step as int);
            assert(line_maps::<A, B, E, F>(
                kernels.0,
                line,
                line_at(results.0, p, q, len, step as int),
            ));
            assert(line_maps::<A, B, E, G>(
                kernels.1,
                line,
                line_at(results.1, p, q, len, step as int),
            ));
        }
        if len > 0 {
            lemma_same_lines(results.0, results.1, count, len, step as int);
        } else {
            assert(count * len * step == 0) by (nonlinear_arith)
                requires
                    len == 0,
            ;
        }
        assert(results.0 =~= results.1);
    }
}

/// A complex stage of a mixed plan makes the same as one with kernels that make the same.
pub proof fn law_mixed_station_alike<T: Copy, F: Fn(&[T], usize) -> Result<Vec<T>, LocalError>, G: Fn(&[T], usize) -> Result<Vec<T>, LocalError>, const N: usize, const M: usize>(
    left: MixedComplexStation<F, N, M>,
    right: MixedComplexStation<G, N, M>,
)
    requires
        makes_alike::<T, T, LocalError, F, G>(*left.kernel, *right.kernel),
        right.local == left.local,
        right.pencil.stride_along(right.axis as int) == left.pencil.stride_along(left.axis as int),
    ensures
        works_alike::<T, T, MixedError, MixedComplexStation<F, N, M>, MixedComplexStation<G, N, M>>(left, right),
{
    assert forall|source: Seq<T>, one: Seq<T>, other: Seq<T>|
        #![trigger maps::<T, T, MixedError, MixedComplexStation<F, N, M>>(left, source, one), maps::<T, T, MixedError, MixedComplexStation<G, N, M>>(right, source, other)]
        maps::<T, T, MixedError, MixedComplexStation<F, N, M>>(left, source, one)
            && maps::<T, T, MixedError, MixedComplexStation<G, N, M>>(right, source, other) implies one == other by {
        let (first, line) = choose|original: Seq<T>, line: usize| #[trigger]
            left.leaves(source, original, one, line, Ok(()));
        let (second, buffer) = choose|original: Seq<T>, line: usize| #[trigger]
            right.leaves(source, original, other, line, Ok(()));
        let stride = left.pencil.stride_along(left.axis as int);
        match left.local {
            MixedComplexLocal::Identity => {},
            MixedComplexLocal::Fft(plan) => {
                law_sweep_alike::<T, T, LocalError, F, G>(
                    (*left.kernel, *right.kernel),
                    stride,
                    source,
                    (first, second),
                    (one, other),
                    (line, buffer),
                    (complex_lens(plan, line), complex_lens(plan, buffer)),
                );
            },
            MixedComplexLocal::R2r(plan) => {
                law_sweep_alike::<T, T, LocalError, F, G>(
                    (*left.kernel, *right.kernel),
                    stride,
                    source,
                    (first, second),
                    (one, other),
                    (line, buffer),
                    (mixed_r2r_lens(plan.plan(), line), mixed_r2r_lens(plan.plan(), buffer)),
                );
            },
        }
    }
}

/// A real stage of a mixed plan makes the same as one with kernels that make the same.
pub proof fn law_prefix_station_alike<T: Copy, F: Fn(&[T], usize) -> Result<Vec<T>, LocalError>, G: Fn(&[T], usize) -> Result<Vec<T>, LocalError>, const N: usize, const M: usize>(
    left: MixedRealStation<F, N, M>,
    right: MixedRealStation<G, N, M>,
)
    requires
        makes_alike::<T, T, LocalError, F, G>(*left.kernel, *right.kernel),
        right.local == left.local,
        right.pencil.stride_along(right.axis as int) == left.pencil.stride_along(left.axis as int),
    ensures
        works_alike::<T, T, MixedError, MixedRealStation<F, N, M>, MixedRealStation<G, N, M>>(left, right),
{
    assert forall|source: Seq<T>, one: Seq<T>, other: Seq<T>|
        #![trigger maps::<T, T, MixedError, MixedRealStation<F, N, M>>(left, source, one), maps::<T, T, MixedError, MixedRealStation<G, N, M>>(right, source, other)]
        maps::<T, T, MixedError, MixedRealStation<F, N, M>>(left, source, one)
            && maps::<T, T, MixedError, MixedRealStation<G, N, M>>(right, source, other) implies one == other by {
        let (first, line) = choose|original: Seq<T>, line: usize| #[trigger]
            left.leaves(source, original, one, line, Ok(()));
        let (second, buffer) = choose|original: Seq<T>, line: usize| #[trigger]
            right.leaves(source, original, other, line, Ok(()));
        let stride = left.pencil.stride_along(left.axis as int);
        if let MixedRealLocal::R2r(plan) = left.local {
            law_sweep_alike::<T, T, LocalError, F, G>(
                (*left.kernel, *right.kernel),
                stride,
                source,
                (first, second),
                (one, other),
                (line, buffer),
                (mixed_r2r_lens(plan.plan(), line), mixed_r2r_lens(plan.plan(), buffer)),
            );
        }
    }
}

/// A complex stage of a real-to-complex plan makes the same as one with kernels that make the same.
pub proof fn law_tail_station_alike<T: Copy, F: Fn(&[T], usize) -> Result<Vec<T>, LocalC2cError>, G: Fn(&[T], usize) -> Result<Vec<T>, LocalC2cError>, const N: usize, const M: usize>(
    left: ComplexStation<F, N, M>,
    right: ComplexStation<G, N, M>,
)
    requires
        makes_alike::<T, T, LocalC2cError, F, G>(*left.kernel, *right.kernel),
        right.local == left.local,
        right.pencil.stride_along(right.axis as int) == left.pencil.stride_along(left.axis as int),
    ensures
        works_alike::<T, T, R2cError, ComplexStation<F, N, M>, ComplexStation<G, N, M>>(left, right),
{
    assert forall|source: Seq<T>, one: Seq<T>, other: Seq<T>|
        #![trigger maps::<T, T, R2cError, ComplexStation<F, N, M>>(left, source, one), maps::<T, T, R2cError, ComplexStation<G, N, M>>(right, source, other)]
        maps::<T, T, R2cError, ComplexStation<F, N, M>>(left, source, one)
            && maps::<T, T, R2cError, ComplexStation<G, N, M>>(right, source, other) implies one == other by {
        let (first, line) = choose|original: Seq<T>, line: usize| #[trigger]
            left.leaves(source, original, one, line, Ok(()));
        let (second, buffer) = choose|original: Seq<T>, line: usize| #[trigger]
            right.leaves(source, original, other, line, Ok(()));
        let stride = left.pencil.stride_along(left.axis as int);
        if let LocalTransform::Complex(plan) = left.local {
            law_sweep_alike::<T, T, LocalC2cError, F, G>(
                (*left.kernel, *right.kernel),
                stride,
                source,
                (first, second),
                (one, other),
                (line, buffer),
                (complex_lens(plan, line), complex_lens(plan, buffer)),
            );
        }
    }
}

/// The boundary of a real-to-complex plan makes the same as one with kernels that make the same.
pub proof fn law_crossing_alike<R: Copy, F: Fn(&[R], usize) -> Result<Vec<Complex<R>>, LocalR2cError>, G: Fn(&[R], usize) -> Result<Vec<Complex<R>>, LocalR2cError>, const N: usize, const M: usize>(
    left: ForwardCrossing<F, N, M>,
    right: ForwardCrossing<G, N, M>,
)
    requires
        makes_alike::<R, Complex<R>, LocalR2cError, F, G>(*left.kernel, *right.kernel),
        right.plan == left.plan,
        right.pencil.stride_along(right.axis as int) == left.pencil.stride_along(left.axis as int),
    ensures
        works_alike::<R, Complex<R>, R2cError, ForwardCrossing<F, N, M>, ForwardCrossing<G, N, M>>(left, right),
{
    assert forall|source: Seq<R>, one: Seq<Complex<R>>, other: Seq<Complex<R>>|
        #![trigger maps::<R, Complex<R>, R2cError, ForwardCrossing<F, N, M>>(left, source, one), maps::<R, Complex<R>, R2cError, ForwardCrossing<G, N, M>>(right, source, other)]
        maps::<R, Complex<R>, R2cError, ForwardCrossing<F, N, M>>(left, source, one)
            && maps::<R, Complex<R>, R2cError, ForwardCrossing<G, N, M>>(right, source, other) implies one == other by {
        let (first, line) = choose|original: Seq<Complex<R>>, line: usize| #[trigger]
            left.leaves(source, original, one, line, Ok(()));
        let (second, buffer) = choose|original: Seq<Complex<R>>, line: usize| #[trigger]
            right.leaves(source, original, other, line, Ok(()));
        let stride = left.pencil.stride_along(left.axis as int);
        law_sweep_alike::<R, Complex<R>, LocalR2cError, F, G>(
            (*left.kernel, *right.kernel),
            stride,
            source,
            (first, second),
            (one, other),
            (line, buffer),
            (boundary_forward_lens(left.plan, left.result_line), boundary_forward_lens(right.plan, right.result_line)),
        );
    }
}

/// The boundary of a mixed plan makes the same as one with kernels that make the same.
pub proof fn law_mixed_crossing_alike<R: Copy, F: Fn(&[R], usize) -> Result<Vec<Complex<R>>, LocalError>, G: Fn(&[R], usize) -> Result<Vec<Complex<R>>, LocalError>, const N: usize, const M: usize>(
    left: MixedForwardCrossing<F, N, M>,
    right: MixedForwardCrossing<G, N, M>,
)
    requires
        makes_alike::<R, Complex<R>, LocalError, F, G>(*left.kernel, *right.kernel),
        right.plan == left.plan,
        right.pencil.stride_along(right.axis as int) == left.pencil.stride_along(left.axis as int),
    ensures
        works_alike::<R, Complex<R>, MixedError, MixedForwardCrossing<F, N, M>, MixedForwardCrossing<G, N, M>>(left, right),
{
    assert forall|source: Seq<R>, one: Seq<Complex<R>>, other: Seq<Complex<R>>|
        #![trigger maps::<R, Complex<R>, MixedError, MixedForwardCrossing<F, N, M>>(left, source, one), maps::<R, Complex<R>, MixedError, MixedForwardCrossing<G, N, M>>(right, source, other)]
        maps::<R, Complex<R>, MixedError, MixedForwardCrossing<F, N, M>>(left, source, one)
            && maps::<R, Complex<R>, MixedError, MixedForwardCrossing<G, N, M>>(right, source, other) implies one == other by {
        let (first, line) = choose|original: Seq<Complex<R>>, line: usize| #[trigger]
            left.leaves(source, original, one, line, Ok(()));
        let (second, buffer) = choose|original: Seq<Complex<R>>, line: usize| #[trigger]
            right.leaves(source, original, other, line, Ok(()));
        let stride = left.pencil.stride_along(left.axis as int);
        law_sweep_alike::<R, Complex<R>, LocalError, F, G>(
            (*left.kernel, *right.kernel),
            stride,
            source,
            (first, second),
            (one, other),
            (line, buffer),
            (boundary_forward_lens(left.plan, left.result_line), boundary_forward_lens(right.plan, right.result_line)),
        );
    }
}

/// The boundary of a real-to-complex plan makes the same on the way back as one with kernels that
/// make the same.
pub proof fn law_reverse_crossing_alike<R: Copy, F: Fn(&[Complex<R>], usize) -> Result<Vec<R>, LocalR2cError>, G: Fn(&[Complex<R>], usize) -> Result<Vec<R>, LocalR2cError>, const N: usize, const M: usize>(
    left: ReverseCrossing<F, N, M>,
    right: ReverseCrossing<G, N, M>,
)
    requires
        makes_alike::<Complex<R>, R, LocalR2cError, F, G>(*left.kernel, *right.kernel),
        right.plan == left.plan,
        right.pencil.stride_along(right.axis as int) == left.pencil.stride_along(left.axis as int),
    ensures
        works_alike::<Complex<R>, R, R2cError, ReverseCrossing<F, N, M>, ReverseCrossing<G, N, M>>(left, right),
{
    assert forall|source: Seq<Complex<R>>, one: Seq<R>, other: Seq<R>|
        #![trigger maps::<Complex<R>, R, R2cError, ReverseCrossing<F, N, M>>(left, source, one), maps::<Complex<R>, R, R2cError, ReverseCrossing<G, N, M>>(right, source, other)]
        maps::<Complex<R>, R, R2cError, ReverseCrossing<F, N, M>>(left, source, one)
            && maps::<Complex<R>, R, R2cError, ReverseCrossing<G, N, M>>(right, source, other) implies one == other by {
        let (first, line) = choose|original: Seq<R>, line: usize| #[trigger]
            left.leaves(source, original, one, line, Ok(()));
        let (second, buffer) = choose|original: Seq<R>, line: usize| #[trigger]
            right.leaves(source, original, other, line, Ok(()));
        let stride = left.pencil.stride_along(left.axis as int);
        law_sweep_alike::<Complex<R>, R, LocalR2cError, F, G>(
            (*left.kernel, *right.kernel),
            stride,
            source,
            (first, second),
            (one, other),
            (line, buffer),
            (boundary_reverse_lens(left.plan, left.result_line), boundary_reverse_lens(right.plan, right.result_line)),
        );
    }
}

/// The boundary of a mixed plan makes the same on the way back as one with kernels that make the
/// same.
pub proof fn law_mixed_reverse_crossing_alike<R: Copy, F: Fn(&[Complex<R>], usize) -> Result<Vec<R>, LocalError>, G: Fn(&[Complex<R>], usize) -> Result<Vec<R>, LocalError>, const N: usize, const M: usize>(
    left: MixedReverseCrossing<F, N, M>,
    right: MixedReverseCrossing<G, N, M>,
)
    requires
        makes_alike::<Complex<R>, R, LocalError, F, G>(*left.kernel, *right.kernel),
        right.plan == left.plan,
        right.pencil.stride_along(right.axis as int) == left.pencil.stride_along(left.axis as int),
    ensures
        works_alike::<Complex<R>, R, MixedError, MixedReverseCrossing<F, N, M>, MixedReverseCrossing<G, N, M>>(left, right),
{
    assert forall|source: Seq<Complex<R>>, one: Seq<R>, other: Seq<R>|
        #![trigger maps::<Complex<R>, R, MixedError, MixedReverseCrossing<F, N, M>>(left, source, one), maps::<Complex<R>, R, MixedError, MixedReverseCrossing<G, N, M>>(right, source, other)]
        maps::<Complex<R>, R, MixedError, MixedReverseCrossing<F, N, M>>(left, source, one)
            && maps::<Complex<R>, R, MixedError, MixedReverseCrossing<G, N, M>>(right, source, other) implies one == other by {
        let (first, line) = choose|original: Seq<R>, line: usize| #[trigger]
            left.leaves(source, original, one, line, Ok(()));
        let (second, buffer) = choose|original: Seq<R>, line: usize| #[trigger]
            right.leaves(source, original, other, line, Ok(()));
        let stride = left.pencil.stride_along(left.axis as int);
        law_sweep_alike::<Complex<R>, R, LocalError, F, G>(
            (*left.kernel, *right.kernel),
            stride,
            source,
            (first, second),
            (one, other),
            (line, buffer),
            (boundary_reverse_lens(left.plan, left.result_line), boundary_reverse_lens(right.plan, right.result_line)),
        );
    }
}

/// Two who clear the endpoint planes make the same of the same values.
pub open spec fn clearings_alike<R: FftReal, E, V: Inspector<R, E, N, M>, W: Inspector<R, E, N, M>, const N: usize, const M: usize>(
    left: V,
    right: W,
) -> bool {
    forall|
        a: ManyPencilArray<Complex<R>, N, M>,
        b: ManyPencilArray<Complex<R>, N, M>,
        c: ManyPencilArray<Complex<R>, N, M>,
        d: ManyPencilArray<Complex<R>, N, M>,
    |
        #[trigger] left.clears(a, b, Ok(())) && #[trigger] right.clears(c, d, Ok(()))
            && active_values(a) == active_values(c) ==> active_values(b) == active_values(d)
}

/// Clearing the endpoint planes behind an exchange makes what clearing them in front of it makes.
pub open spec fn clearing_crosses<R: FftReal, E, X: Fn(usize, Passage, Load<Complex<R>, N, M>) -> (Load<Complex<R>, N, M>, Result<(), FftError>), Z: Fn(usize, Passage, Load<Complex<R>, N, M>) -> (Load<Complex<R>, N, M>, Result<(), FftError>), V: Inspector<R, E, N, M>, W: Inspector<R, E, N, M>, const N: usize, const M: usize>(
    exchanges: (X, Z),
    inspectors: (V, W),
    index: usize,
    passage: Passage,
) -> bool {
    forall|
        a: Load<Complex<R>, N, M>,
        b: Load<Complex<R>, N, M>,
        c: Load<Complex<R>, N, M>,
        d: Load<Complex<R>, N, M>,
        behind: ManyPencilArray<Complex<R>, N, M>,
        cleared: ManyPencilArray<Complex<R>, N, M>,
        front: ManyPencilArray<Complex<R>, N, M>,
    |
        {
            &&& #[trigger] exchanges.0.ensures((index, passage, a), (b, Ok(())))
            &&& #[trigger] inspectors.0.clears(behind, cleared, Ok(()))
            &&& #[trigger] inspectors.1.clears(front, c.0, Ok(()))
            &&& #[trigger] exchanges.1.ensures((index, passage, c), (d, Ok(())))
            &&& active_values(a.0) == active_values(front)
            &&& active_values(b.0) == active_values(behind)
        } ==> active_values(cleared) == active_values(d.0)
}

} // verus!
