//! What each step of a half-complex execution makes of the values, and what undoes a stage.

use vstd::prelude::*;

use crate::array::ManyPencilArray;
use crate::error::Failure;
use crate::error::LocalC2cError;
use crate::error::LocalR2cError;
use crate::error::MixedError;
use crate::error::R2cError;
use crate::inspect::Inspector;
use crate::kernels::ComplexStation;
use crate::kernels::ForwardCrossing;
use crate::kernels::MixedForwardCrossing;
use crate::kernels::MixedRealStation;
use crate::kernels::MixedReverseCrossing;
use crate::kernels::ReverseCrossing;
use crate::laws::law_sweep_round_trip;
use crate::laws::undoes;
use crate::layout::Pencil;
use crate::lines::line_maps;
use crate::local::LocalR2cPlan;
use crate::local::LocalTransform;
use crate::local::MixedRealLocal;
use crate::perform::forward_done;
use crate::perform::reverse_done;
use crate::perform::HalfArrays;
use crate::perform::HalfEntries;
use crate::perform::HalfLens;
use crate::registry::Stage;
use crate::round_trip::active_values;
use crate::round_trip::keeps_len;
use crate::round_trip::lemma_applied_maps;
use crate::round_trip::lemma_sweep_len;
use crate::round_trip::maps;
use crate::round_trip::undone;
use crate::scalar::Complex;
use crate::scalar::FftReal;
use crate::schedule::Slot;
use crate::schedule::Step;
use crate::schedule::Work;
use crate::stages::boundary_forward_lens;
use crate::stages::boundary_reverse_lens;
use crate::stages::complex_lens;
use crate::stages::mixed_r2r_lens;
use crate::stages::LocalError;
use crate::station::entered;
use crate::station::layout_index;
use crate::station::layout_len;
use crate::station::CopyStation;
use crate::station::LocalStation;
use crate::station::Station;
use crate::sweep::swept;
use crate::sweep::SweepLens;

verus! {

/// Values before or behind the boundary.
pub enum HalfValues<R> {
    /// Before it.
    Real(Seq<R>),
    /// Behind it.
    Complex(Seq<Complex<R>>),
}

/// The values that a step reads or writes in `slot`.
pub open spec fn half_held<R, const N: usize, const M: usize>(
    slot: Slot,
    source: HalfValues<R>,
    arrays: HalfArrays<R, N, M>,
    destination: HalfValues<R>,
) -> HalfValues<R> {
    match slot {
        Slot::Source => source,
        Slot::Destination => destination,
        Slot::Real => HalfValues::Real(active_values(arrays.reals->0)),
        Slot::Complex => HalfValues::Complex(active_values(arrays.complexes)),
    }
}

/// The work that belongs to the kinds of two values may turn the first into the second, on the way
/// there.
pub open spec fn maps_there<R: Copy, E: Failure, SR: Station<R, R, E>, SX: Station<R, Complex<R>, E>, SC: Station<Complex<R>, Complex<R>, E>>(
    stations: (SR, SX, SC),
    source: HalfValues<R>,
    result: HalfValues<R>,
) -> bool {
    match (source, result) {
        (HalfValues::Real(x), HalfValues::Real(y)) => maps::<R, R, E, SR>(stations.0, x, y),
        (HalfValues::Real(x), HalfValues::Complex(y)) => maps::<R, Complex<R>, E, SX>(
            stations.1,
            x,
            y,
        ),
        (HalfValues::Complex(x), HalfValues::Complex(y)) => maps::<
            Complex<R>,
            Complex<R>,
            E,
            SC,
        >(stations.2, x, y),
        _ => false,
    }
}

/// The work that belongs to the kinds of two values may turn the first into the second, on the way
/// back.
pub open spec fn maps_home<R: Copy, E: Failure, SR: Station<R, R, E>, SX: Station<Complex<R>, R, E>, SC: Station<Complex<R>, Complex<R>, E>>(
    stations: (SR, SX, SC),
    source: HalfValues<R>,
    result: HalfValues<R>,
) -> bool {
    match (source, result) {
        (HalfValues::Real(x), HalfValues::Real(y)) => maps::<R, R, E, SR>(stations.0, x, y),
        (HalfValues::Complex(x), HalfValues::Real(y)) => maps::<Complex<R>, R, E, SX>(
            stations.1,
            x,
            y,
        ),
        (HalfValues::Complex(x), HalfValues::Complex(y)) => maps::<
            Complex<R>,
            Complex<R>,
            E,
            SC,
        >(stations.2, x, y),
        _ => false,
    }
}

/// Values that entered an array are what the stage made of them.
pub proof fn lemma_entered_maps<A, B, E: Failure, S: Station<A, B, E>, const N: usize, const M: usize>(
    station: S,
    source: Seq<A>,
    before: ManyPencilArray<B, N, M>,
    after: ManyPencilArray<B, N, M>,
    pencil: Pencil<N, M>,
    line: usize,
)
    requires
        entered::<A, B, E, S, N, M>(station, source, before, after, pencil, line, Ok(())),
    ensures
        maps::<A, B, E, S>(station, source, active_values(after)),
{
    let index = choose|index: int|
        {
            &&& #[trigger] layout_index(before.pencils@, pencil, index)
            &&& station.leaves(
                source,
                before.storage@.subrange(0, layout_len(before, index)),
                after.storage@.subrange(0, layout_len(before, index)),
                line,
                Ok(()),
            )
            &&& after.active == Some(index as usize)
        };
    assert(before.pencils.len() == before.pencils@.len());
    assert(after.active_len() == layout_len(before, index));
}

/// A copy keeps the values.
proof fn lemma_copy_maps<T: Copy, E: Failure>(source: Seq<T>, result: Seq<T>)
    requires
        maps::<T, T, E, CopyStation>(
            CopyStation {  },
            source,
            result,
        ),
    ensures
        result == source,
{
    let (original, line) = choose|original: Seq<T>, line: usize| #[trigger]
        Station::<T, T, E>::leaves(
            &CopyStation {  },
            source,
            original,
            result,
            line,
            Ok(()),
        );
}

/// A forward step that succeeds turns the values in front of it into those behind it.
pub proof fn lemma_forward_maps<R: Copy, E: Failure, SR: LocalStation<R, E>, SX: Station<R, Complex<R>, E>, SC: LocalStation<Complex<R>, E>, const N: usize, const M: usize>(
    stations: (SR, SX, SC),
    step: Step,
    entries: HalfEntries<N, M>,
    source: Seq<R>,
    before: HalfArrays<R, N, M>,
    after: HalfArrays<R, N, M>,
    destination: (Seq<Complex<R>>, Seq<Complex<R>>),
    lens: HalfLens,
)
    requires
        forward_done::<R, E, SR, SX, SC, N, M>(
            stations,
            step,
            entries,
            source,
            before,
            after,
            destination,
            lens,
            Ok(()),
        ),
    ensures
        ({
            let given = half_held(
                step.from,
                HalfValues::Real(source),
                before,
                HalfValues::Complex(destination.0),
            );
            let made = half_held(
                step.to,
                HalfValues::Real(source),
                after,
                HalfValues::Complex(destination.1),
            );
            match step.work {
                Work::Kernel(_) => maps_there::<R, E, SR, SX, SC>(stations, given, made),
                Work::Copy => made == given,
                _ => false,
            }
        }),
{
    match (step.work, step.from, step.to) {
        (Work::Copy, Slot::Source, Slot::Real) => {
            lemma_entered_maps::<R, R, E, CopyStation, N, M>(
                CopyStation {  },
                source,
                before.reals->0,
                after.reals->0,
                entries.source,
                lens.reals,
            );
            lemma_copy_maps::<R, E>(source, active_values(after.reals->0));
        },
        (Work::Kernel(_), Slot::Source, Slot::Real) => {
            lemma_entered_maps::<R, R, E, SR, N, M>(
                stations.0,
                source,
                before.reals->0,
                after.reals->0,
                entries.source,
                lens.reals,
            );
        },
        (Work::Kernel(_), Slot::Real, Slot::Real) => {
            lemma_applied_maps::<R, E, SR, N, M>(
                stations.0,
                before.reals->0,
                after.reals->0,
                lens.reals,
            );
        },
        (Work::Kernel(_), Slot::Source, Slot::Complex) => {
            lemma_entered_maps::<R, Complex<R>, E, SX, N, M>(
                stations.1,
                source,
                before.complexes,
                after.complexes,
                entries.crossing,
                lens.crossing,
            );
        },
        (Work::Kernel(_), Slot::Real, Slot::Complex) => {
            lemma_entered_maps::<R, Complex<R>, E, SX, N, M>(
                stations.1,
                active_values(before.reals->0),
                before.complexes,
                after.complexes,
                entries.crossing,
                lens.crossing,
            );
        },
        (Work::Kernel(_), Slot::Complex, Slot::Complex) => {
            lemma_applied_maps::<Complex<R>, E, SC, N, M>(
                stations.2,
                before.complexes,
                after.complexes,
                lens.complexes,
            );
        },
        (Work::Kernel(_), Slot::Complex, Slot::Destination) => {
            assert(stations.2.leaves(
                active_values(before.complexes),
                destination.0,
                destination.1,
                lens.complexes,
                Ok(()),
            ));
        },
        (Work::Copy, Slot::Complex, Slot::Destination) => {
            assert(maps::<Complex<R>, Complex<R>, E, CopyStation>(
                CopyStation {  },
                active_values(before.complexes),
                destination.1,
            ));
            lemma_copy_maps::<Complex<R>, E>(active_values(before.complexes), destination.1);
        },
        _ => {},
    }
}

/// A reverse step that succeeds turns the values in front of it into those behind it.
pub proof fn lemma_reverse_maps<R: Copy, E: Failure, SR: LocalStation<R, E>, SX: Station<Complex<R>, R, E>, SC: LocalStation<Complex<R>, E>, const N: usize, const M: usize>(
    stations: (SR, SX, SC),
    step: Step,
    entries: HalfEntries<N, M>,
    source: Seq<Complex<R>>,
    before: HalfArrays<R, N, M>,
    after: HalfArrays<R, N, M>,
    destination: (Seq<R>, Seq<R>),
    lens: HalfLens,
)
    requires
        reverse_done::<R, E, SR, SX, SC, N, M>(
            stations,
            step,
            entries,
            source,
            before,
            after,
            destination,
            lens,
            Ok(()),
        ),
    ensures
        ({
            let given = half_held(
                step.from,
                HalfValues::Complex(source),
                before,
                HalfValues::Real(destination.0),
            );
            let made = half_held(
                step.to,
                HalfValues::Complex(source),
                after,
                HalfValues::Real(destination.1),
            );
            match step.work {
                Work::Kernel(_) => maps_home::<R, E, SR, SX, SC>(stations, given, made),
                Work::Copy => made == given,
                _ => false,
            }
        }),
{
    match (step.work, step.from, step.to) {
        (Work::Copy, Slot::Source, Slot::Complex) => {
            lemma_entered_maps::<Complex<R>, Complex<R>, E, CopyStation, N, M>(
                CopyStation {  },
                source,
                before.complexes,
                after.complexes,
                entries.source,
                lens.complexes,
            );
            lemma_copy_maps::<Complex<R>, E>(source, active_values(after.complexes));
        },
        (Work::Kernel(_), Slot::Source, Slot::Complex) => {
            lemma_entered_maps::<Complex<R>, Complex<R>, E, SC, N, M>(
                stations.2,
                source,
                before.complexes,
                after.complexes,
                entries.source,
                lens.complexes,
            );
        },
        (Work::Kernel(_), Slot::Complex, Slot::Complex) => {
            lemma_applied_maps::<Complex<R>, E, SC, N, M>(
                stations.2,
                before.complexes,
                after.complexes,
                lens.complexes,
            );
        },
        (Work::Kernel(_), Slot::Complex, Slot::Destination) => {
            assert(stations.1.leaves(
                active_values(before.complexes),
                destination.0,
                destination.1,
                lens.crossing,
                Ok(()),
            ));
        },
        (Work::Kernel(_), Slot::Complex, Slot::Real) => {
            lemma_entered_maps::<Complex<R>, R, E, SX, N, M>(
                stations.1,
                active_values(before.complexes),
                before.reals->0,
                after.reals->0,
                entries.crossing,
                lens.crossing,
            );
        },
        (Work::Kernel(_), Slot::Real, Slot::Real) => {
            lemma_applied_maps::<R, E, SR, N, M>(
                stations.0,
                before.reals->0,
                after.reals->0,
                lens.reals,
            );
        },
        (Work::Kernel(_), Slot::Real, Slot::Destination) => {
            assert(stations.0.leaves(
                active_values(before.reals->0),
                destination.0,
                destination.1,
                lens.reals,
                Ok(()),
            ));
        },
        (Work::Copy, Slot::Real, Slot::Destination) => {
            assert(maps::<R, R, E, CopyStation>(
                CopyStation {  },
                active_values(before.reals->0),
                destination.1,
            ));
            lemma_copy_maps::<R, E>(active_values(before.reals->0), destination.1);
        },
        _ => {},
    }
}

/// Lines lie alike in memory in front of each stage and behind it.
pub open spec fn lies_alike<const N: usize, const M: usize>(stages: Seq<Stage<N, M>>) -> bool {
    forall|i: int|
        0 <= i < stages.len() ==> (#[trigger] stages[i]).input.stride_along(stages[i].axis as int)
            == stages[i].output.stride_along(stages[i].axis as int)
}

/// `kernel` makes one line of `result_len` elements of each line of `source_len`.
pub open spec fn converts_lines<A, B, E, F: Fn(&[A], usize) -> Result<Vec<B>, E>>(
    kernel: F,
    source_len: int,
    result_len: int,
) -> bool {
    forall|source: Seq<A>, result: Seq<B>| #[trigger]
        line_maps::<A, B, E, F>(kernel, source, result) ==> source.len() * result_len
            == result.len() * source_len
}

/// Clearing the endpoint planes changes nothing of what `made` holds of.
pub open spec fn clearing_keeps<R: FftReal, E, V: Inspector<R, E, N, M>, const N: usize, const M: usize>(
    inspector: V,
    made: spec_fn(Seq<Complex<R>>) -> bool,
) -> bool {
    forall|
        before: ManyPencilArray<Complex<R>, N, M>,
        after: ManyPencilArray<Complex<R>, N, M>,
    |
        #[trigger] inspector.clears(before, after, Ok(())) && made(active_values(before))
            ==> active_values(after) == active_values(before)
}

/// A sweep with a kernel that converts lines converts the length of its array.
pub proof fn lemma_converted_len<A, B, E, F: Fn(&[A], usize) -> Result<Vec<B>, E>>(
    kernel: F,
    stride: Option<usize>,
    source: Seq<A>,
    original: Seq<B>,
    result: Seq<B>,
    line: usize,
    lens: SweepLens,
)
    requires
        converts_lines::<A, B, E, F>(kernel, lens.source_len as int, lens.result_len as int),
        swept::<A, B, E, F>(kernel, stride, source, original, result, line, lens, Ok(())),
    ensures
        source.len() * lens.result_len == result.len() * lens.source_len,
        result.len() == original.len(),
{
    let step = stride->0;
    if step <= 1 || (lens.call_when_empty && source.len() == 0) {
        assert(line_maps::<A, B, E, F>(kernel, source, result));
    } else {
        let block = lens.source_len * step;
        let count = source.len() as int / block;
        assert(original.len() == count * lens.result_len * step);
        assert(source.len() * lens.result_len == original.len() * lens.source_len) by (nonlinear_arith)
            requires
                block == lens.source_len * step,
                block != 0,
                lens.source_len >= 0,
                step >= 0,
                source.len() as int % block == 0,
                count == source.len() as int / block,
                original.len() == count * lens.result_len * step,
        ;
    }
}

proof fn lemma_crossing_back<R: Copy, E, F: Fn(&[R], usize) -> Result<Vec<Complex<R>>, E>, G: Fn(&[Complex<R>], usize) -> Result<Vec<R>, E>>(
    there: F,
    home: G,
    stride: Option<usize>,
    plan: LocalR2cPlan,
    source: Seq<R>,
    between: (Seq<Complex<R>>, Seq<Complex<R>>),
    back: (Seq<R>, Seq<R>),
    lines: (usize, usize),
    results: (usize, usize),
)
    requires
        plan.wf(),
        undoes::<R, Complex<R>, E, F, G>(there, home),
        converts_lines::<R, Complex<R>, E, F>(
            there,
            plan.real_len as int,
            plan.complex_len as int,
        ),
        converts_lines::<Complex<R>, R, E, G>(
            home,
            plan.complex_len as int,
            plan.real_len as int,
        ),
        swept::<R, Complex<R>, E, F>(
            there,
            stride,
            source,
            between.0,
            between.1,
            lines.0,
            boundary_forward_lens(plan, results.0),
            Ok(()),
        ),
        swept::<Complex<R>, R, E, G>(
            home,
            stride,
            between.1,
            back.0,
            back.1,
            lines.1,
            boundary_reverse_lens(plan, results.1),
            Ok(()),
        ),
    ensures
        back.1 == source,
{
    lemma_converted_len::<R, Complex<R>, E, F>(
        there,
        stride,
        source,
        between.0,
        between.1,
        lines.0,
        boundary_forward_lens(plan, results.0),
    );
    lemma_converted_len::<Complex<R>, R, E, G>(
        home,
        stride,
        between.1,
        back.0,
        back.1,
        lines.1,
        boundary_reverse_lens(plan, results.1),
    );
    assert(back.1.len() == source.len()) by (nonlinear_arith)
        requires
            plan.complex_len > 0,
            source.len() * plan.complex_len == between.1.len() * plan.real_len,
            between.1.len() * plan.real_len == back.1.len() * plan.complex_len,
    ;
    law_sweep_round_trip::<R, Complex<R>, E, F, G>(
        there,
        home,
        stride,
        source,
        between,
        back,
        lines,
        boundary_forward_lens(plan, results.0),
        boundary_reverse_lens(plan, results.1),
    );
}

/// The boundary of a real-to-complex plan is undone by the boundary back with a kernel that undoes
/// its own.
pub proof fn law_crossing_undone<R: Copy, F: Fn(&[R], usize) -> Result<Vec<Complex<R>>, LocalR2cError>, G: Fn(&[Complex<R>], usize) -> Result<Vec<R>, LocalR2cError>, const N: usize, const M: usize>(
    there: ForwardCrossing<F, N, M>,
    home: ReverseCrossing<G, N, M>,
)
    requires
        there.plan.wf(),
        home.plan == there.plan,
        home.pencil.stride_along(home.axis as int) == there.pencil.stride_along(there.axis as int),
        undoes::<R, Complex<R>, LocalR2cError, F, G>(*there.kernel, *home.kernel),
        converts_lines::<R, Complex<R>, LocalR2cError, F>(
            *there.kernel,
            there.plan.real_len as int,
            there.plan.complex_len as int,
        ),
        converts_lines::<Complex<R>, R, LocalR2cError, G>(
            *home.kernel,
            there.plan.complex_len as int,
            there.plan.real_len as int,
        ),
    ensures
        undone::<R, Complex<R>, R2cError, ForwardCrossing<F, N, M>, ReverseCrossing<G, N, M>>(
            there,
            home,
        ),
{
    assert forall|source: Seq<R>, between: Seq<Complex<R>>, back: Seq<R>|
        #![trigger maps::<R, Complex<R>, R2cError, ForwardCrossing<F, N, M>>(there, source, between), maps::<Complex<R>, R, R2cError, ReverseCrossing<G, N, M>>(home, between, back)]
        maps::<R, Complex<R>, R2cError, ForwardCrossing<F, N, M>>(there, source, between) && maps::<
            Complex<R>,
            R,
            R2cError,
            ReverseCrossing<G, N, M>,
        >(home, between, back) implies back == source by {
        let (first, line) = choose|original: Seq<Complex<R>>, line: usize| #[trigger]
            there.leaves(source, original, between, line, Ok(()));
        let (second, other) = choose|original: Seq<R>, line: usize| #[trigger]
            home.leaves(between, original, back, line, Ok(()));
        lemma_crossing_back::<R, LocalR2cError, F, G>(
            *there.kernel,
            *home.kernel,
            there.pencil.stride_along(there.axis as int),
            there.plan,
            source,
            (first, between),
            (second, back),
            (line, other),
            (there.result_line, home.result_line),
        );
    }
}

/// The boundary of a mixed plan is undone by the boundary back with a kernel that undoes its own.
pub proof fn law_mixed_crossing_undone<R: Copy, F: Fn(&[R], usize) -> Result<Vec<Complex<R>>, LocalError>, G: Fn(&[Complex<R>], usize) -> Result<Vec<R>, LocalError>, const N: usize, const M: usize>(
    there: MixedForwardCrossing<F, N, M>,
    home: MixedReverseCrossing<G, N, M>,
)
    requires
        there.plan.wf(),
        home.plan == there.plan,
        home.pencil.stride_along(home.axis as int) == there.pencil.stride_along(there.axis as int),
        undoes::<R, Complex<R>, LocalError, F, G>(*there.kernel, *home.kernel),
        converts_lines::<R, Complex<R>, LocalError, F>(
            *there.kernel,
            there.plan.real_len as int,
            there.plan.complex_len as int,
        ),
        converts_lines::<Complex<R>, R, LocalError, G>(
            *home.kernel,
            there.plan.complex_len as int,
            there.plan.real_len as int,
        ),
    ensures
        undone::<
            R,
            Complex<R>,
            MixedError,
            MixedForwardCrossing<F, N, M>,
            MixedReverseCrossing<G, N, M>,
        >(there, home),
{
    assert forall|source: Seq<R>, between: Seq<Complex<R>>, back: Seq<R>|
        #![trigger maps::<R, Complex<R>, MixedError, MixedForwardCrossing<F, N, M>>(there, source, between), maps::<Complex<R>, R, MixedError, MixedReverseCrossing<G, N, M>>(home, between, back)]
        maps::<R, Complex<R>, MixedError, MixedForwardCrossing<F, N, M>>(there, source, between)
            && maps::<Complex<R>, R, MixedError, MixedReverseCrossing<G, N, M>>(
            home,
            between,
            back,
        ) implies back == source by {
        let (first, line) = choose|original: Seq<Complex<R>>, line: usize| #[trigger]
            there.leaves(source, original, between, line, Ok(()));
        let (second, other) = choose|original: Seq<R>, line: usize| #[trigger]
            home.leaves(between, original, back, line, Ok(()));
        lemma_crossing_back::<R, LocalError, F, G>(
            *there.kernel,
            *home.kernel,
            there.pencil.stride_along(there.axis as int),
            there.plan,
            source,
            (first, between),
            (second, back),
            (line, other),
            (there.result_line, home.result_line),
        );
    }
}

/// A complex stage of a real-to-complex plan is undone by the same stage with a kernel that undoes
/// its own.
pub proof fn law_tail_station_undone<T: Copy, F: Fn(&[T], usize) -> Result<Vec<T>, LocalC2cError>, G: Fn(&[T], usize) -> Result<Vec<T>, LocalC2cError>, const N: usize, const M: usize>(
    there: ComplexStation<F, N, M>,
    home: ComplexStation<G, N, M>,
)
    requires
        undoes::<T, T, LocalC2cError, F, G>(*there.kernel, *home.kernel),
        keeps_len::<T, T, LocalC2cError, F>(*there.kernel),
        keeps_len::<T, T, LocalC2cError, G>(*home.kernel),
        home.local == there.local,
        home.pencil.stride_along(home.axis as int) == there.pencil.stride_along(there.axis as int),
    ensures
        undone::<T, T, R2cError, ComplexStation<F, N, M>, ComplexStation<G, N, M>>(there, home),
{
    assert forall|source: Seq<T>, between: Seq<T>, back: Seq<T>|
        #![trigger maps::<T, T, R2cError, ComplexStation<F, N, M>>(there, source, between), maps::<T, T, R2cError, ComplexStation<G, N, M>>(home, between, back)]
        maps::<T, T, R2cError, ComplexStation<F, N, M>>(there, source, between) && maps::<
            T,
            T,
            R2cError,
            ComplexStation<G, N, M>,
        >(home, between, back) implies back == source by {
        let (first, line) = choose|original: Seq<T>, line: usize| #[trigger]
            there.leaves(source, original, between, line, Ok(()));
        let (second, other) = choose|original: Seq<T>, line: usize| #[trigger]
            home.leaves(between, original, back, line, Ok(()));
        let stride = there.pencil.stride_along(there.axis as int);
        if let LocalTransform::Complex(plan) = there.local {
            lemma_sweep_len::<T, LocalC2cError, F>(
                *there.kernel,
                stride,
                source,
                first,
                between,
                line,
                complex_lens(plan, line),
            );
            lemma_sweep_len::<T, LocalC2cError, G>(
                *home.kernel,
                stride,
                between,
                second,
                back,
                other,
                complex_lens(plan, other),
            );
            law_sweep_round_trip::<T, T, LocalC2cError, F, G>(
                *there.kernel,
                *home.kernel,
                stride,
                source,
                (first, between),
                (second, back),
                (line, other),
                complex_lens(plan, line),
                complex_lens(plan, other),
            );
        }
    }
}

/// A real stage of a mixed plan is undone by the same stage with a kernel that undoes its own.
pub proof fn law_prefix_station_undone<T: Copy, F: Fn(&[T], usize) -> Result<Vec<T>, LocalError>, G: Fn(&[T], usize) -> Result<Vec<T>, LocalError>, const N: usize, const M: usize>(
    there: MixedRealStation<F, N, M>,
    home: MixedRealStation<G, N, M>,
)
    requires
        undoes::<T, T, LocalError, F, G>(*there.kernel, *home.kernel),
        keeps_len::<T, T, LocalError, F>(*there.kernel),
        keeps_len::<T, T, LocalError, G>(*home.kernel),
        home.local == there.local,
        home.pencil.stride_along(home.axis as int) == there.pencil.stride_along(there.axis as int),
    ensures
        undone::<T, T, MixedError, MixedRealStation<F, N, M>, MixedRealStation<G, N, M>>(
            there,
            home,
        ),
{
    assert forall|source: Seq<T>, between: Seq<T>, back: Seq<T>|
        #![trigger maps::<T, T, MixedError, MixedRealStation<F, N, M>>(there, source, between), maps::<T, T, MixedError, MixedRealStation<G, N, M>>(home, between, back)]
        maps::<T, T, MixedError, MixedRealStation<F, N, M>>(there, source, between) && maps::<
            T,
            T,
            MixedError,
            MixedRealStation<G, N, M>,
        >(home, between, back) implies back == source by {
        let (first, line) = choose|original: Seq<T>, line: usize| #[trigger]
            there.leaves(source, original, between, line, Ok(()));
        let (second, other) = choose|original: Seq<T>, line: usize| #[trigger]
            home.leaves(between, original, back, line, Ok(()));
        let stride = there.pencil.stride_along(there.axis as int);
        if let MixedRealLocal::R2r(local) = there.local {
            let plan = local.plan();
            lemma_sweep_len::<T, LocalError, F>(
                *there.kernel,
                stride,
                source,
                first,
                between,
                line,
                mixed_r2r_lens(plan, line),
            );
            lemma_sweep_len::<T, LocalError, G>(
                *home.kernel,
                stride,
                between,
                second,
                back,
                other,
                mixed_r2r_lens(plan, other),
            );
            law_sweep_round_trip::<T, T, LocalError, F, G>(
                *there.kernel,
                *home.kernel,
                stride,
                source,
                (first, between),
                (second, back),
                (line, other),
                mixed_r2r_lens(plan, line),
                mixed_r2r_lens(plan, other),
            );
        }
    }
}

} // verus!
