//! A transform and its way back without normalization: the values come back times a product.

use vstd::arithmetic::div_mod::lemma_fundamental_div_mod_converse;
use vstd::prelude::*;

use crate::carrier::Load;
use crate::error::FftError;
use crate::error::LocalC2cError;
use crate::error::LocalR2cError;
use crate::error::LocalR2rError;
use crate::error::MixedError;
use crate::error::R2cError;
use crate::error::R2rError;
use crate::kernels::ComplexStation;
use crate::kernels::ForwardCrossing;
use crate::kernels::MixedComplexStation;
use crate::kernels::MixedForwardCrossing;
use crate::kernels::MixedRealStation;
use crate::kernels::MixedReverseCrossing;
use crate::kernels::R2rStation;
use crate::kernels::ReverseCrossing;
use crate::handoff::lanes;
use crate::laws::lemma_same_lines;
use crate::layout::Direction;
use crate::lines::lemma_position_bound;
use crate::lines::line_at;
use crate::lines::line_maps;
use crate::lines::position;
use crate::local::LocalR2cPlan;
use crate::local::LocalTransform;
use crate::local::MixedComplexLocal;
use crate::local::MixedRealLocal;
use crate::local::R2rLocal;
use crate::round_half::converts_lines;
use crate::round_half::lemma_converted_len;
use crate::round_half::HalfValues;
use crate::round_shared::hands_home;
use crate::round_shared::hands_there;
use crate::round_shared::lemma_groups;
use crate::round_trip::active_values;
use crate::round_trip::keeps_len;
use crate::round_trip::lemma_sweep_len;
use crate::round_trip::maps;
use crate::scalar::Complex;
use crate::stages::boundary_forward_lens;
use crate::stages::boundary_reverse_lens;
use crate::stages::complex_lens;
use crate::stages::mixed_r2r_lens;
use crate::stages::r2r_lens;
use crate::stages::LocalError;
use crate::station::Station;
use crate::sweep::swept;
use crate::sweep::SweepLens;
use crate::transition::Passage;
use crate::transition::Transition;

verus! {

/// Each value times `factor`, where `times` tells what a value times a factor is.
pub open spec fn scaled<T>(times: spec_fn(int, T) -> T, factor: int, values: Seq<T>) -> Seq<T> {
    Seq::new(values.len(), |i: int| times(factor, values[i]))
}

/// Values on either side of the boundary times `factor`.
pub open spec fn half_scaled<R>(
    times: (spec_fn(int, R) -> R, spec_fn(int, Complex<R>) -> Complex<R>),
    factor: int,
    values: HalfValues<R>,
) -> HalfValues<R> {
    match values {
        HalfValues::Real(reals) => HalfValues::Real(scaled(times.0, factor, reals)),
        HalfValues::Complex(pairs) => HalfValues::Complex(scaled(times.1, factor, pairs)),
    }
}

/// The values that `made` holds of, times any factor.
pub open spec fn scaled_makes<T>(
    times: spec_fn(int, T) -> T,
    made: spec_fn(Seq<T>) -> bool,
) -> spec_fn(Seq<T>) -> bool {
    |values: Seq<T>|
        exists|factor: int, plain: Seq<T>| #[trigger]
            scaled(times, factor, plain) == values && made(plain)
}

/// Once is as often as not at all multiplied.
pub open spec fn once_keeps<T>(times: spec_fn(int, T) -> T) -> bool {
    forall|value: T| #[trigger] times(1, value) == value
}

/// `reverse` leads back from whatever `forward` makes of a line, times any factor, to the line times
/// that factor and `gain`.
pub open spec fn returns_scaled<A, B, E, F: Fn(&[A], usize) -> Result<Vec<B>, E>, G: Fn(&[B], usize) -> Result<Vec<A>, E>>(
    forward: F,
    reverse: G,
    times: (spec_fn(int, A) -> A, spec_fn(int, B) -> B),
    gain: int,
) -> bool {
    forall|source: Seq<A>, between: Seq<B>, factor: int, back: Seq<A>|
        #![trigger line_maps::<A, B, E, F>(forward, source, between), line_maps::<B, A, E, G>(reverse, scaled(times.1, factor, between), back)]
        line_maps::<A, B, E, F>(forward, source, between) && line_maps::<B, A, E, G>(
            reverse,
            scaled(times.1, factor, between),
            back,
        ) && back.len() == source.len() ==> back == scaled(times.0, factor * gain, source)
}

/// Each exchange of the way back undoes the same one of the way there, whatever the values were
/// multiplied with in between.
pub open spec fn exchanges_undone_scaled<T, X: Fn(usize, Passage, Load<T, N, M>) -> (Load<T, N, M>, Result<(), FftError>), Z: Fn(usize, Passage, Load<T, N, M>) -> (Load<T, N, M>, Result<(), FftError>), const N: usize, const M: usize>(
    there: X,
    home: Z,
    transitions: Seq<Transition>,
    direction: Direction,
    times: spec_fn(int, T) -> T,
) -> bool {
    forall|
        index: usize,
        a: Load<T, N, M>,
        b: Load<T, N, M>,
        c: Load<T, N, M>,
        d: Load<T, N, M>,
        factor: int,
    |
        #![trigger there.ensures((index, transitions[index as int].spec_passage(Direction::Forward), a), (b, Ok(()))), home.ensures((index, transitions[index as int].spec_passage(direction), c), (d, Ok(()))), scaled(times, factor, active_values(b.0))]
        index < transitions.len() && there.ensures(
            (index, transitions[index as int].spec_passage(Direction::Forward), a),
            (b, Ok(())),
        ) && home.ensures(
            (index, transitions[index as int].spec_passage(direction), c),
            (d, Ok(())),
        ) && active_values(c.0) == scaled(times, factor, active_values(b.0)) ==> active_values(d.0)
            == scaled(times, factor, active_values(a.0))
}

/// The product of the gains of the stages from `first` on.
pub open spec fn gains_from(gains: Seq<int>, first: int) -> int
    decreases gains.len() - first,
{
    if first < 0 || first >= gains.len() {
        1
    } else {
        gains_from(gains, first + 1) * gains[first]
    }
}

/// How often the complex lines of a stage come back.
pub open spec fn tail_gain(local: LocalTransform) -> int {
    match local {
        LocalTransform::Complex(plan) => plan.line_len as int,
        _ => 1,
    }
}

/// How often the lines of a complex stage of a mixed plan come back.
pub open spec fn mixed_gain(local: MixedComplexLocal) -> int {
    match local {
        MixedComplexLocal::Identity => 1,
        MixedComplexLocal::Fft(plan) => plan.line_len as int,
        MixedComplexLocal::R2r(plan) => plan.plan().normalization_factor as int,
    }
}

/// How often the lines of a real stage of a mixed plan come back.
pub open spec fn prefix_gain(local: MixedRealLocal) -> int {
    match local {
        MixedRealLocal::R2r(plan) => plan.plan().normalization_factor as int,
        _ => 1,
    }
}

/// How often the lines of a real-to-real or Hartley stage come back.
pub open spec fn r2r_gain(local: R2rLocal) -> int {
    match local.plan() {
        Some(plan) => plan.normalization_factor as int,
        None => 1,
    }
}

/// The lines of scaled values are scaled lines.
proof fn lemma_scaled_line<T>(
    times: spec_fn(int, T) -> T,
    factor: int,
    values: Seq<T>,
    place: (int, int),
    count: int,
    len: nat,
    stride: int,
)
    requires
        0 <= place.0 < count,
        0 <= place.1 < stride,
        count * len * stride <= values.len(),
    ensures
        line_at(scaled(times, factor, values), place.0, place.1, len, stride) == scaled(
            times,
            factor,
            line_at(values, place.0, place.1, len, stride),
        ),
{
    let left = line_at(scaled(times, factor, values), place.0, place.1, len, stride);
    let right = scaled(times, factor, line_at(values, place.0, place.1, len, stride));
    assert forall|k: int| 0 <= k < len implies #[trigger] left[k] == right[k] by {
        lemma_position_bound(place.0, place.1, k, count, len as int, stride);
        assert(scaled(times, factor, values)[position(place.0, place.1, k, len as int, stride)]
            == times(factor, values[position(place.0, place.1, k, len as int, stride)]));
    }
    assert(left =~= right);
}

/// A sweep and the sweep of a kernel that leads back to a multiple give back the array times that.
pub proof fn law_sweep_scaled<A, B, E, F: Fn(&[A], usize) -> Result<Vec<B>, E>, G: Fn(&[B], usize) -> Result<Vec<A>, E>>(
    kernels: (F, G),
    times: (spec_fn(int, A) -> A, spec_fn(int, B) -> B),
    factors: (int, int),
    stride: Option<usize>,
    source: Seq<A>,
    between: (Seq<B>, Seq<B>),
    back: (Seq<A>, Seq<A>),
    lines: (usize, usize),
    lens: (SweepLens, SweepLens),
)
    requires
        returns_scaled::<A, B, E, F, G>(kernels.0, kernels.1, times, factors.1),
        lens.1.source_len == lens.0.result_len,
        lens.1.result_len == lens.0.source_len,
        lens.1.call_when_empty == lens.0.call_when_empty,
        lens.0.call_when_empty ==> (source.len() == 0 <==> between.0.len() == 0),
        back.0.len() == source.len(),
        swept::<A, B, E, F>(
            kernels.0,
            stride,
            source,
            between.0,
            between.1,
            lines.0,
            lens.0,
            Ok(()),
        ),
        swept::<B, A, E, G>(
            kernels.1,
            stride,
            scaled(times.1, factors.0, between.1),
            back.0,
            back.1,
            lines.1,
            lens.1,
            Ok(()),
        ),
    ensures
        back.1 == scaled(times.0, factors.0 * factors.1, source),
{
    let step = stride->0;
    let given = scaled(times.1, factors.0, between.1);
    let product = factors.0 * factors.1;
    let wanted = scaled(times.0, product, source);
    if step <= 1 || (lens.0.call_when_empty && source.len() == 0) {
        assert(line_maps::<A, B, E, F>(kernels.0, source, between.1));
        assert(line_maps::<B, A, E, G>(kernels.1, given, back.1));
    } else {
        let block = lens.0.source_len * step;
        let count = source.len() as int / block;
        assert(source.len() == count * lens.0.source_len * step && 0 <= count && lens.0.source_len
            > 0) by (nonlinear_arith)
            requires
                block == lens.0.source_len * step,
                block != 0,
                lens.0.source_len >= 0,
                step >= 0,
                source.len() as int % block == 0,
                count == source.len() as int / block,
        ;
        let home_block = lens.1.source_len * step;
        assert(home_block > 0) by (nonlinear_arith)
            requires
                home_block == lens.1.source_len * step,
                home_block != 0,
                lens.1.source_len >= 0,
                step >= 0,
        ;
        assert(between.1.len() == count * home_block) by (nonlinear_arith)
            requires
                between.1.len() == count * lens.0.result_len * step,
                home_block == lens.1.source_len * step,
                lens.1.source_len == lens.0.result_len,
        ;
        lemma_fundamental_div_mod_converse(given.len() as int, home_block, count, 0);
        let len = lens.0.source_len as nat;
        let middle_len = lens.0.result_len as nat;
        assert forall|p: int, q: int| 0 <= p < count && 0 <= q < step implies #[trigger] line_at(
            back.1,
            p,
            q,
            len,
            step as int,
        ) == line_at(wanted, p, q, len, step as int) by {
            let middle = line_at(between.1, p, q, middle_len, step as int);
            let line = line_at(source, p, q, len, step as int);
            lemma_scaled_line(times.1, factors.0, between.1, (p, q), count, middle_len, step as int);
            lemma_scaled_line(times.0, product, source, (p, q), count, len, step as int);
            assert(line_maps::<A, B, E, F>(kernels.0, line, middle));
            assert(line_maps::<B, A, E, G>(
                kernels.1,
                scaled(times.1, factors.0, middle),
                line_at(back.1, p, q, len, step as int),
            ));
        }
        lemma_same_lines(back.1, wanted, count, len, step as int);
        assert(back.1 =~= wanted);
    }
}

/// A complex stage of a real-to-complex plan and its way back give back the values times its gain.
pub proof fn law_tail_station_scaled<T: Copy, F: Fn(&[T], usize) -> Result<Vec<T>, LocalC2cError>, G: Fn(&[T], usize) -> Result<Vec<T>, LocalC2cError>, const N: usize, const M: usize>(
    there: ComplexStation<F, N, M>,
    home: ComplexStation<G, N, M>,
    times: spec_fn(int, T) -> T,
    factor: int,
    source: Seq<T>,
    between: Seq<T>,
    back: Seq<T>,
)
    requires
        returns_scaled::<T, T, LocalC2cError, F, G>(*there.kernel, *home.kernel, (times, times), tail_gain(there.local)),
        keeps_len::<T, T, LocalC2cError, F>(*there.kernel),
        keeps_len::<T, T, LocalC2cError, G>(*home.kernel),
        home.local == there.local,
        home.pencil.stride_along(home.axis as int) == there.pencil.stride_along(there.axis as int),
        maps::<T, T, R2cError, ComplexStation<F, N, M>>(there, source, between),
        maps::<T, T, R2cError, ComplexStation<G, N, M>>(home, scaled(times, factor, between), back),
    ensures
        back == scaled(times, factor * tail_gain(there.local), source),
{
    let given = scaled(times, factor, between);
    let (first, line) = choose|original: Seq<T>, line: usize| #[trigger]
        there.leaves(source, original, between, line, Ok(()));
    let (second, other) = choose|original: Seq<T>, line: usize| #[trigger]
        home.leaves(given, original, back, line, Ok(()));
    let stride = there.pencil.stride_along(there.axis as int);
    if let LocalTransform::Complex(plan) = there.local {
        lemma_sweep_len::<T, LocalC2cError, F>(*there.kernel, stride, source, first, between, line, complex_lens(plan, line));
        lemma_sweep_len::<T, LocalC2cError, G>(*home.kernel, stride, given, second, back, other, complex_lens(plan, other));
        law_sweep_scaled::<T, T, LocalC2cError, F, G>(
            (*there.kernel, *home.kernel),
            (times, times),
            (factor, plan.line_len as int),
            stride,
            source,
            (first, between),
            (second, back),
            (line, other),
            (complex_lens(plan, line), complex_lens(plan, other)),
        );
    }
    assert(factor * 1 == factor);
}

/// A complex stage of a mixed plan and its way back give back the values times its gain.
pub proof fn law_mixed_station_scaled<T: Copy, F: Fn(&[T], usize) -> Result<Vec<T>, LocalError>, G: Fn(&[T], usize) -> Result<Vec<T>, LocalError>, const N: usize, const M: usize>(
    there: MixedComplexStation<F, N, M>,
    home: MixedComplexStation<G, N, M>,
    times: spec_fn(int, T) -> T,
    factor: int,
    source: Seq<T>,
    between: Seq<T>,
    back: Seq<T>,
)
    requires
        returns_scaled::<T, T, LocalError, F, G>(*there.kernel, *home.kernel, (times, times), mixed_gain(there.local)),
        keeps_len::<T, T, LocalError, F>(*there.kernel),
        keeps_len::<T, T, LocalError, G>(*home.kernel),
        home.local == there.local,
        home.pencil.stride_along(home.axis as int) == there.pencil.stride_along(there.axis as int),
        maps::<T, T, MixedError, MixedComplexStation<F, N, M>>(there, source, between),
        maps::<T, T, MixedError, MixedComplexStation<G, N, M>>(home, scaled(times, factor, between), back),
    ensures
        back == scaled(times, factor * mixed_gain(there.local), source),
{
    let given = scaled(times, factor, between);
    let (first, line) = choose|original: Seq<T>, line: usize| #[trigger]
        there.leaves(source, original, between, line, Ok(()));
    let (second, other) = choose|original: Seq<T>, line: usize| #[trigger]
        home.leaves(given, original, back, line, Ok(()));
    let stride = there.pencil.stride_along(there.axis as int);
    match there.local {
        MixedComplexLocal::Identity => {
            assert(factor * 1 == factor);
        },
        MixedComplexLocal::Fft(plan) => {
            lemma_sweep_len::<T, LocalError, F>(*there.kernel, stride, source, first, between, line, complex_lens(plan, line));
            lemma_sweep_len::<T, LocalError, G>(*home.kernel, stride, given, second, back, other, complex_lens(plan, other));
            law_sweep_scaled::<T, T, LocalError, F, G>(
                (*there.kernel, *home.kernel),
                (times, times),
                (factor, plan.line_len as int),
                stride,
                source,
                (first, between),
                (second, back),
                (line, other),
                (complex_lens(plan, line), complex_lens(plan, other)),
            );
        },
        MixedComplexLocal::R2r(plan) => {
            lemma_sweep_len::<T, LocalError, F>(*there.kernel, stride, source, first, between, line, mixed_r2r_lens(plan.plan(), line));
            lemma_sweep_len::<T, LocalError, G>(*home.kernel, stride, given, second, back, other, mixed_r2r_lens(plan.plan(), other));
            law_sweep_scaled::<T, T, LocalError, F, G>(
                (*there.kernel, *home.kernel),
                (times, times),
                (factor, plan.plan().normalization_factor as int),
                stride,
                source,
                (first, between),
                (second, back),
                (line, other),
                (mixed_r2r_lens(plan.plan(), line), mixed_r2r_lens(plan.plan(), other)),
            );
        },
    }
}

/// A real stage of a mixed plan and its way back give back the values times its gain.
pub proof fn law_prefix_station_scaled<T: Copy, F: Fn(&[T], usize) -> Result<Vec<T>, LocalError>, G: Fn(&[T], usize) -> Result<Vec<T>, LocalError>, const N: usize, const M: usize>(
    there: MixedRealStation<F, N, M>,
    home: MixedRealStation<G, N, M>,
    times: spec_fn(int, T) -> T,
    factor: int,
    source: Seq<T>,
    between: Seq<T>,
    back: Seq<T>,
)
    requires
        returns_scaled::<T, T, LocalError, F, G>(*there.kernel, *home.kernel, (times, times), prefix_gain(there.local)),
        keeps_len::<T, T, LocalError, F>(*there.kernel),
        keeps_len::<T, T, LocalError, G>(*home.kernel),
        home.local == there.local,
        home.pencil.stride_along(home.axis as int) == there.pencil.stride_along(there.axis as int),
        maps::<T, T, MixedError, MixedRealStation<F, N, M>>(there, source, between),
        maps::<T, T, MixedError, MixedRealStation<G, N, M>>(home, scaled(times, factor, between), back),
    ensures
        back == scaled(times, factor * prefix_gain(there.local), source),
{
    let given = scaled(times, factor, between);
    let (first, line) = choose|original: Seq<T>, line: usize| #[trigger]
        there.leaves(source, original, between, line, Ok(()));
    let (second, other) = choose|original: Seq<T>, line: usize| #[trigger]
        home.leaves(given, original, back, line, Ok(()));
    let stride = there.pencil.stride_along(there.axis as int);
    if let MixedRealLocal::R2r(plan) = there.local {
        lemma_sweep_len::<T, LocalError, F>(*there.kernel, stride, source, first, between, line, mixed_r2r_lens(plan.plan(), line));
        lemma_sweep_len::<T, LocalError, G>(*home.kernel, stride, given, second, back, other, mixed_r2r_lens(plan.plan(), other));
        law_sweep_scaled::<T, T, LocalError, F, G>(
            (*there.kernel, *home.kernel),
            (times, times),
            (factor, plan.plan().normalization_factor as int),
            stride,
            source,
            (first, between),
            (second, back),
            (line, other),
            (mixed_r2r_lens(plan.plan(), line), mixed_r2r_lens(plan.plan(), other)),
        );
    }
    assert(factor * 1 == factor);
}

/// A stage of a real-to-real or Hartley plan and its way back give back the values times its gain.
pub proof fn law_r2r_station_scaled<T: Copy, F: Fn(&[T], usize) -> Result<Vec<T>, LocalR2rError>, G: Fn(&[T], usize) -> Result<Vec<T>, LocalR2rError>, const N: usize, const M: usize>(
    there: R2rStation<F, N, M>,
    home: R2rStation<G, N, M>,
    times: spec_fn(int, T) -> T,
    factor: int,
    source: Seq<T>,
    between: Seq<T>,
    back: Seq<T>,
)
    requires
        returns_scaled::<T, T, LocalR2rError, F, G>(*there.kernel, *home.kernel, (times, times), r2r_gain(there.local)),
        keeps_len::<T, T, LocalR2rError, F>(*there.kernel),
        keeps_len::<T, T, LocalR2rError, G>(*home.kernel),
        home.local == there.local,
        home.pencil.stride_along(home.axis as int) == there.pencil.stride_along(there.axis as int),
        maps::<T, T, R2rError, R2rStation<F, N, M>>(there, source, between),
        maps::<T, T, R2rError, R2rStation<G, N, M>>(home, scaled(times, factor, between), back),
    ensures
        back == scaled(times, factor * r2r_gain(there.local), source),
{
    let given = scaled(times, factor, between);
    let (first, line) = choose|original: Seq<T>, line: usize| #[trigger]
        there.leaves(source, original, between, line, Ok(()));
    let (second, other) = choose|original: Seq<T>, line: usize| #[trigger]
        home.leaves(given, original, back, line, Ok(()));
    let stride = there.pencil.stride_along(there.axis as int);
    if let Some(plan) = there.local.plan() {
        lemma_sweep_len::<T, LocalR2rError, F>(*there.kernel, stride, source, first, between, line, r2r_lens(plan, line));
        lemma_sweep_len::<T, LocalR2rError, G>(*home.kernel, stride, given, second, back, other, r2r_lens(plan, other));
        law_sweep_scaled::<T, T, LocalR2rError, F, G>(
            (*there.kernel, *home.kernel),
            (times, times),
            (factor, plan.normalization_factor as int),
            stride,
            source,
            (first, between),
            (second, back),
            (line, other),
            (r2r_lens(plan, line), r2r_lens(plan, other)),
        );
    }
    assert(factor * 1 == factor);
}

/// The boundary of a real-to-complex plan and its way back give back the values times the length of
/// a real line.
pub proof fn law_crossing_scaled<R: Copy, F: Fn(&[R], usize) -> Result<Vec<Complex<R>>, LocalR2cError>, G: Fn(&[Complex<R>], usize) -> Result<Vec<R>, LocalR2cError>, const N: usize, const M: usize>(
    there: ForwardCrossing<F, N, M>,
    home: ReverseCrossing<G, N, M>,
    times: (spec_fn(int, R) -> R, spec_fn(int, Complex<R>) -> Complex<R>),
    factor: int,
    source: Seq<R>,
    between: Seq<Complex<R>>,
    back: Seq<R>,
)
    requires
        there.plan.wf(),
        home.plan == there.plan,
        home.pencil.stride_along(home.axis as int) == there.pencil.stride_along(there.axis as int),
        returns_scaled::<R, Complex<R>, LocalR2cError, F, G>(
            *there.kernel,
            *home.kernel,
            times,
            there.plan.real_len as int,
        ),
        converts_lines::<R, Complex<R>, LocalR2cError, F>(
            *there.kernel,
            there.plan.real_len as int,
            there.plan.complex_len as int,
        ),
        converts_lines::<Complex<R>, R, LocalR2cError, G>(
            *home.kernel,
            there.plan.complex_len as int,
            there.plan.real_len as int,
        ),
        maps::<R, Complex<R>, R2cError, ForwardCrossing<F, N, M>>(there, source, between),
        maps::<Complex<R>, R, R2cError, ReverseCrossing<G, N, M>>(home, scaled(times.1, factor, between), back),
    ensures
        back == scaled(times.0, factor * there.plan.real_len, source),
{
    let given = scaled(times.1, factor, between);
    let (first, line) = choose|original: Seq<Complex<R>>, line: usize| #[trigger]
        there.leaves(source, original, between, line, Ok(()));
    let (second, other) = choose|original: Seq<R>, line: usize| #[trigger]
        home.leaves(given, original, back, line, Ok(()));
    lemma_crossing_scaled::<R, LocalR2cError, F, G>(
        (*there.kernel, *home.kernel),
        times,
        factor,
        there.pencil.stride_along(there.axis as int),
        there.plan,
        source,
        (first, between),
        (second, back),
        (line, other),
        (there.result_line, home.result_line),
    );
}

/// The boundary of a mixed plan and its way back give back the values times the length of a real
/// line.
pub proof fn law_mixed_crossing_scaled<R: Copy, F: Fn(&[R], usize) -> Result<Vec<Complex<R>>, LocalError>, G: Fn(&[Complex<R>], usize) -> Result<Vec<R>, LocalError>, const N: usize, const M: usize>(
    there: MixedForwardCrossing<F, N, M>,
    home: MixedReverseCrossing<G, N, M>,
    times: (spec_fn(int, R) -> R, spec_fn(int, Complex<R>) -> Complex<R>),
    factor: int,
    source: Seq<R>,
    between: Seq<Complex<R>>,
    back: Seq<R>,
)
    requires
        there.plan.wf(),
        home.plan == there.plan,
        home.pencil.stride_along(home.axis as int) == there.pencil.stride_along(there.axis as int),
        returns_scaled::<R, Complex<R>, LocalError, F, G>(
            *there.kernel,
            *home.kernel,
            times,
            there.plan.real_len as int,
        ),
        converts_lines::<R, Complex<R>, LocalError, F>(
            *there.kernel,
            there.plan.real_len as int,
            there.plan.complex_len as int,
        ),
        converts_lines::<Complex<R>, R, LocalError, G>(
            *home.kernel,
            there.plan.complex_len as int,
            there.plan.real_len as int,
        ),
        maps::<R, Complex<R>, MixedError, MixedForwardCrossing<F, N, M>>(there, source, between),
        maps::<Complex<R>, R, MixedError, MixedReverseCrossing<G, N, M>>(home, scaled(times.1, factor, between), back),
    ensures
        back == scaled(times.0, factor * there.plan.real_len, source),
{
    let given = scaled(times.1, factor, between);
    let (first, line) = choose|original: Seq<Complex<R>>, line: usize| #[trigger]
        there.leaves(source, original, between, line, Ok(()));
    let (second, other) = choose|original: Seq<R>, line: usize| #[trigger]
        home.leaves(given, original, back, line, Ok(()));
    lemma_crossing_scaled::<R, LocalError, F, G>(
        (*there.kernel, *home.kernel),
        times,
        factor,
        there.pencil.stride_along(there.axis as int),
        there.plan,
        source,
        (first, between),
        (second, back),
        (line, other),
        (there.result_line, home.result_line),
    );
}

proof fn lemma_crossing_scaled<R: Copy, E, F: Fn(&[R], usize) -> Result<Vec<Complex<R>>, E>, G: Fn(&[Complex<R>], usize) -> Result<Vec<R>, E>>(
    kernels: (F, G),
    times: (spec_fn(int, R) -> R, spec_fn(int, Complex<R>) -> Complex<R>),
    factor: int,
    stride: Option<usize>,
    plan: LocalR2cPlan,
    source: Seq<R>,
    between: (Seq<Complex<R>>, Seq<Complex<R>>),
    back: (Seq<R>, Seq<R>),
    lines: (usize, usize),
    results: (usize, usize),
)
    requires
        plan.wf(),
        returns_scaled::<R, Complex<R>, E, F, G>(kernels.0, kernels.1, times, plan.real_len as int),
        converts_lines::<R, Complex<R>, E, F>(
            kernels.0,
            plan.real_len as int,
            plan.complex_len as int,
        ),
        converts_lines::<Complex<R>, R, E, G>(
            kernels.1,
            plan.complex_len as int,
            plan.real_len as int,
        ),
        swept::<R, Complex<R>, E, F>(
            kernels.0,
            stride,
            source,
            between.0,
            between.1,
            lines.0,
            boundary_forward_lens(plan, results.0),
            Ok(()),
        ),
        swept::<Complex<R>, R, E, G>(
            kernels.1,
            stride,
            scaled(times.1, factor, between.1),
            back.0,
            back.1,
            lines.1,
            boundary_reverse_lens(plan, results.1),
            Ok(()),
        ),
    ensures
        back.1 == scaled(times.0, factor * plan.real_len, source),
{
    let given = scaled(times.1, factor, between.1);
    lemma_converted_len::<R, Complex<R>, E, F>(
        kernels.0,
        stride,
        source,
        between.0,
        between.1,
        lines.0,
        boundary_forward_lens(plan, results.0),
    );
    lemma_converted_len::<Complex<R>, R, E, G>(
        kernels.1,
        stride,
        given,
        back.0,
        back.1,
        lines.1,
        boundary_reverse_lens(plan, results.1),
    );
    assert(back.1.len() == source.len()) by (nonlinear_arith)
        requires
            plan.complex_len > 0,
            source.len() * plan.complex_len == given.len() * plan.real_len,
            given.len() * plan.real_len == back.1.len() * plan.complex_len,
    ;
    law_sweep_scaled::<R, Complex<R>, E, F, G>(
        kernels,
        times,
        (factor, plan.real_len as int),
        stride,
        source,
        between,
        back,
        lines,
        (boundary_forward_lens(plan, results.0), boundary_reverse_lens(plan, results.1)),
    );
}

/// A handoff and the handoff back with a kernel that leads back to a multiple give back the values
/// times that: once where the kernel divides by the length of a line, and that length where it does
/// not.
pub proof fn law_handoff_scaled<R, E, F: Fn(&[R], usize) -> Result<Vec<Complex<R>>, E>, G: Fn(&[Complex<R>], usize) -> Result<Vec<R>, E>>(
    kernels: (F, G),
    times: (spec_fn(int, R) -> R, spec_fn(int, Complex<R>) -> Complex<R>),
    factors: (int, int),
    plan: LocalR2cPlan,
    rows: int,
    stride: int,
    source: Seq<R>,
    between: Seq<Complex<R>>,
    back: Seq<R>,
)
    requires
        plan.wf(),
        returns_scaled::<R, Complex<R>, E, F, G>(kernels.0, kernels.1, times, factors.1),
        hands_there::<R, E, F>(kernels.0, plan, rows, stride, source, between),
        hands_home::<R, E, G>(
            kernels.1,
            plan,
            rows,
            stride,
            scaled(times.1, factors.0, between),
            back,
        ),
    ensures
        back == scaled(times.0, factors.0 * factors.1, source),
{
    let step = lanes(stride);
    let groups = rows / step;
    let len = plan.real_len as nat;
    let middle_len = plan.complex_len as nat;
    let product = factors.0 * factors.1;
    let wanted = scaled(times.0, product, source);
    lemma_groups(rows, len as int, step);
    lemma_groups(rows, middle_len as int, step);
    assert forall|p: int, q: int| 0 <= p < groups && 0 <= q < step implies #[trigger] line_at(
        back,
        p,
        q,
        len,
        step,
    ) == line_at(wanted, p, q, len, step) by {
        let line = line_at(source, p, q, len, step);
        let middle = line_at(between, p, q, middle_len, step);
        lemma_scaled_line(times.1, factors.0, between, (p, q), groups, middle_len, step);
        lemma_scaled_line(times.0, product, source, (p, q), groups, len, step);
        assert(line_maps::<R, Complex<R>, E, F>(kernels.0, line, middle));
        assert(line_maps::<Complex<R>, R, E, G>(
            kernels.1,
            scaled(times.1, factors.0, middle),
            line_at(back, p, q, len, step),
        ));
    }
    lemma_same_lines(back, wanted, groups, len, step);
    assert(back =~= wanted);
}

} // verus!
