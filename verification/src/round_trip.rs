//! What an execution and its way back leave of the values: what each stage and each exchange
//! undoes, the whole way back undoes.

use vstd::prelude::*;

use crate::array::ManyPencilArray;
use crate::carrier::carried;
use crate::carrier::Load;
use crate::crew::all_done;
use crate::crew::Crew;
use crate::error::Failure;
use crate::error::FftError;
use crate::error::LocalR2rError;
use crate::error::MixedError;
use crate::error::R2rError;
use crate::kernels::MixedComplexStation;
use crate::kernels::R2rStation;
use crate::laws::law_mixed_stage_round_trip;
use crate::laws::law_r2r_stage_round_trip;
use crate::laws::undoes;
use crate::layout::Direction;
use crate::layout::Pencil;
use crate::lines::line_maps;
use crate::local::MixedComplexLocal;
use crate::perform::step_done;
use crate::schedule::Slot;
use crate::schedule::Step;
use crate::schedule::Work;
use crate::stages::complex_lens;
use crate::stages::mixed_r2r_lens;
use crate::stages::r2r_lens;
use crate::stages::LocalError;
use crate::station::applied;
use crate::station::layout_index;
use crate::station::layout_len;
use crate::station::CopyStation;
use crate::station::LocalStation;
use crate::station::Station;
use crate::sweep::swept;
use crate::sweep::SweepLens;
use crate::transition::Passage;
use crate::transition::Transition;

verus! {

/// The values of the active layout.
pub open spec fn active_values<T, const N: usize, const M: usize>(
    array: ManyPencilArray<T, N, M>,
) -> Seq<T> {
    array.storage@.subrange(0, array.active_len())
}

/// `kernel` makes lines of the length that it is given.
pub open spec fn keeps_len<A, B, E, F: Fn(&[A], usize) -> Result<Vec<B>, E>>(kernel: F) -> bool {
    forall|source: Seq<A>, result: Seq<B>| #[trigger]
        line_maps::<A, B, E, F>(kernel, source, result) ==> result.len() == source.len()
}

/// Each kernel of the way back undoes that of its stage, and neither changes a length.
pub open spec fn kernels_undone<A, E, F: Fn(&[A], usize) -> Result<Vec<A>, E>, G: Fn(&[A], usize) -> Result<Vec<A>, E>>(
    there: Seq<F>,
    home: Seq<G>,
) -> bool {
    forall|i: int|
        0 <= i < there.len() ==> undoes::<A, A, E, F, G>(#[trigger] there[i], home[i])
            && keeps_len::<A, A, E, F>(there[i]) && keeps_len::<A, A, E, G>(home[i])
}

/// Each exchange of the way back undoes the same one of the way there.
pub open spec fn exchanges_undone<T, X: Fn(usize, Passage, Load<T, N, M>) -> (Load<T, N, M>, Result<(), FftError>), Z: Fn(usize, Passage, Load<T, N, M>) -> (Load<T, N, M>, Result<(), FftError>), const N: usize, const M: usize>(
    there: X,
    home: Z,
    transitions: Seq<Transition>,
    direction: Direction,
) -> bool {
    forall|
        index: usize,
        a: Load<T, N, M>,
        b: Load<T, N, M>,
        c: Load<T, N, M>,
        d: Load<T, N, M>,
    |
        index < transitions.len() && #[trigger] there.ensures(
            (index, transitions[index as int].spec_passage(Direction::Forward), a),
            (b, Ok(())),
        ) && #[trigger] home.ensures(
            (index, transitions[index as int].spec_passage(direction), c),
            (d, Ok(())),
        ) && active_values(c.0) == active_values(b.0) ==> active_values(d.0) == active_values(a.0)
}

/// The work of a stage may turn `source` into `result`.
pub open spec fn maps<A, B, E, S: Station<A, B, E>>(
    station: S,
    source: Seq<A>,
    result: Seq<B>,
) -> bool {
    exists|original: Seq<B>, line: usize| #[trigger]
        station.leaves(source, original, result, line, Ok(()))
}

/// The work of `home` leads back from whatever `there` makes of values.
pub open spec fn undone<A, B, E, S: Station<A, B, E>, H: Station<B, A, E>>(
    there: S,
    home: H,
) -> bool {
    forall|source: Seq<A>, between: Seq<B>, back: Seq<A>|
        #![trigger maps::<A, B, E, S>(there, source, between), maps::<B, A, E, H>(home, between, back)]
        maps::<A, B, E, S>(there, source, between) && maps::<B, A, E, H>(home, between, back)
            ==> back == source
}

/// A sweep with a kernel that keeps lengths keeps the length of its array.
pub proof fn lemma_sweep_len<T, E, F: Fn(&[T], usize) -> Result<Vec<T>, E>>(
    kernel: F,
    stride: Option<usize>,
    source: Seq<T>,
    original: Seq<T>,
    result: Seq<T>,
    line: usize,
    lens: SweepLens,
)
    requires
        keeps_len::<T, T, E, F>(kernel),
        lens.source_len == lens.result_len,
        swept::<T, T, E, F>(kernel, stride, source, original, result, line, lens, Ok(())),
    ensures
        original.len() == source.len(),
        result.len() == source.len(),
{
    let step = stride->0;
    if step <= 1 || (lens.call_when_empty && source.len() == 0) {
        assert(line_maps::<T, T, E, F>(kernel, source, result));
    } else {
        let block = lens.source_len * step;
        let count = source.len() as int / block;
        assert(source.len() == count * lens.result_len * step) by (nonlinear_arith)
            requires
                block == lens.source_len * step,
                block != 0,
                lens.source_len >= 0,
                step >= 0,
                source.len() as int % block == 0,
                count == source.len() as int / block,
                lens.source_len == lens.result_len,
        ;
    }
}

/// A stage of a real-to-real or Hartley plan is undone by the same stage with a kernel that undoes
/// its own.
pub proof fn law_r2r_station_undone<T: Copy, F: Fn(&[T], usize) -> Result<Vec<T>, LocalR2rError>, G: Fn(&[T], usize) -> Result<Vec<T>, LocalR2rError>, const N: usize, const M: usize>(
    there: R2rStation<F, N, M>,
    home: R2rStation<G, N, M>,
)
    requires
        undoes::<T, T, LocalR2rError, F, G>(*there.kernel, *home.kernel),
        keeps_len::<T, T, LocalR2rError, F>(*there.kernel),
        keeps_len::<T, T, LocalR2rError, G>(*home.kernel),
        home.local == there.local,
        home.pencil.stride_along(home.axis as int) == there.pencil.stride_along(there.axis as int),
    ensures
        undone::<T, T, R2rError, R2rStation<F, N, M>, R2rStation<G, N, M>>(there, home),
{
    assert forall|source: Seq<T>, between: Seq<T>, back: Seq<T>|
        #![trigger maps::<T, T, R2rError, R2rStation<F, N, M>>(there, source, between), maps::<T, T, R2rError, R2rStation<G, N, M>>(home, between, back)]
        maps::<T, T, R2rError, R2rStation<F, N, M>>(there, source, between) && maps::<
            T,
            T,
            R2rError,
            R2rStation<G, N, M>,
        >(home, between, back) implies back == source by {
        let (first, line) = choose|original: Seq<T>, line: usize| #[trigger]
            there.leaves(source, original, between, line, Ok(()));
        let (second, other) = choose|original: Seq<T>, line: usize| #[trigger]
            home.leaves(between, original, back, line, Ok(()));
        if let Some(plan) = there.local.plan() {
            let stride = there.pencil.stride_along(there.axis as int);
            lemma_sweep_len::<T, LocalR2rError, F>(
                *there.kernel,
                stride,
                source,
                first,
                between,
                line,
                r2r_lens(plan, line),
            );
            lemma_sweep_len::<T, LocalR2rError, G>(
                *home.kernel,
                stride,
                between,
                second,
                back,
                other,
                r2r_lens(plan, other),
            );
        }
        law_r2r_stage_round_trip::<T, F, G, N, M>(
            there,
            home,
            source,
            (first, between),
            (second, back),
            (line, other),
        );
    }
}

/// A complex stage of a mixed plan is undone by the same stage with a kernel that undoes its own.
pub proof fn law_mixed_station_undone<T: Copy, F: Fn(&[T], usize) -> Result<Vec<T>, LocalError>, G: Fn(&[T], usize) -> Result<Vec<T>, LocalError>, const N: usize, const M: usize>(
    there: MixedComplexStation<F, N, M>,
    home: MixedComplexStation<G, N, M>,
)
    requires
        undoes::<T, T, LocalError, F, G>(*there.kernel, *home.kernel),
        keeps_len::<T, T, LocalError, F>(*there.kernel),
        keeps_len::<T, T, LocalError, G>(*home.kernel),
        home.local == there.local,
        home.pencil.stride_along(home.axis as int) == there.pencil.stride_along(there.axis as int),
    ensures
        undone::<T, T, MixedError, MixedComplexStation<F, N, M>, MixedComplexStation<G, N, M>>(
            there,
            home,
        ),
{
    assert forall|source: Seq<T>, between: Seq<T>, back: Seq<T>|
        #![trigger maps::<T, T, MixedError, MixedComplexStation<F, N, M>>(there, source, between), maps::<T, T, MixedError, MixedComplexStation<G, N, M>>(home, between, back)]
        maps::<T, T, MixedError, MixedComplexStation<F, N, M>>(there, source, between) && maps::<
            T,
            T,
            MixedError,
            MixedComplexStation<G, N, M>,
        >(home, between, back) implies back == source by {
        let (first, line) = choose|original: Seq<T>, line: usize| #[trigger]
            there.leaves(source, original, between, line, Ok(()));
        let (second, other) = choose|original: Seq<T>, line: usize| #[trigger]
            home.leaves(between, original, back, line, Ok(()));
        let stride = there.pencil.stride_along(there.axis as int);
        match there.local {
            MixedComplexLocal::Identity => {},
            MixedComplexLocal::Fft(plan) => {
                lemma_sweep_len::<T, LocalError, F>(
                    *there.kernel,
                    stride,
                    source,
                    first,
                    between,
                    line,
                    complex_lens(plan, line),
                );
                lemma_sweep_len::<T, LocalError, G>(
                    *home.kernel,
                    stride,
                    between,
                    second,
                    back,
                    other,
                    complex_lens(plan, other),
                );
            },
            MixedComplexLocal::R2r(plan) => {
                lemma_sweep_len::<T, LocalError, F>(
                    *there.kernel,
                    stride,
                    source,
                    first,
                    between,
                    line,
                    mixed_r2r_lens(plan.plan(), line),
                );
                lemma_sweep_len::<T, LocalError, G>(
                    *home.kernel,
                    stride,
                    between,
                    second,
                    back,
                    other,
                    mixed_r2r_lens(plan.plan(), other),
                );
            },
        }
        law_mixed_stage_round_trip::<T, F, G, N, M>(
            there,
            home,
            source,
            (first, between),
            (second, back),
            (line, other),
        );
    }
}

/// An exchange that succeeds is one that was asked for and answered so.
pub proof fn lemma_exchanged<T, E: Failure, X: Fn(usize, Passage, Load<T, N, M>) -> (Load<T, N, M>, Result<(), FftError>), const N: usize, const M: usize>(
    whole: X,
    transitions: Seq<Transition>,
    direction: Direction,
    index: usize,
    before: Load<T, N, M>,
    after: Load<T, N, M>,
)
    requires
        index < transitions.len(),
        carried::<T, E, X, N, M>(whole, transitions, direction, index, before, after, Ok(())),
    ensures
        whole.ensures(
            (index, transitions[index as int].spec_passage(direction), before),
            (after, Ok(())),
        ),
{
    let answer = choose|answer: Result<(), FftError>|
        {
            &&& #[trigger] whole.ensures(
                (index, transitions[index as int].spec_passage(direction), before),
                (after, answer),
            )
            &&& Ok::<(), E>(()) == match answer {
                Ok(_) => Ok::<(), E>(()),
                Err(error) => Err(E::spec_of_fft(error)),
            }
        };
    match answer {
        Ok(done) => {
            assert(answer == Ok::<(), FftError>(()));
        },
        Err(_) => {},
    }
}

/// One step.
pub proof fn lemma_one_done<D, E, C: Crew<D, E>>(crew: C, step: Step, before: D, after: D)
    requires
        all_done::<D, E, C>(crew, seq![step], before, after),
    ensures
        crew.does(step, before, after, Ok(())),
{
    let steps = seq![step];
    let between = choose|between: D|
        all_done::<D, E, C>(crew, steps.drop_last(), before, between) && #[trigger] crew.does(
            steps.last(),
            between,
            after,
            Ok(()),
        );
    assert(steps.drop_last() =~= Seq::<Step>::empty());
}

/// Two steps.
pub proof fn lemma_two_done<D, E, C: Crew<D, E>>(
    crew: C,
    first: Step,
    second: Step,
    before: D,
    after: D,
) -> (between: D)
    requires
        all_done::<D, E, C>(crew, seq![first, second], before, after),
    ensures
        crew.does(first, before, between, Ok(())),
        crew.does(second, between, after, Ok(())),
{
    let steps = seq![first, second];
    let between = choose|between: D|
        all_done::<D, E, C>(crew, steps.drop_last(), before, between) && #[trigger] crew.does(
            steps.last(),
            between,
            after,
            Ok(()),
        );
    assert(steps.drop_last() =~= seq![first]);
    lemma_one_done::<D, E, C>(crew, first, before, between);
    between
}

/// The values that a step reads or writes in `slot`, where all are of one kind.
pub open spec fn held<T, const N: usize, const M: usize>(
    slot: Slot,
    source: Seq<T>,
    array: ManyPencilArray<T, N, M>,
    destination: Seq<T>,
) -> Seq<T> {
    match slot {
        Slot::Source => source,
        Slot::Destination => destination,
        _ => active_values(array),
    }
}

/// A step that succeeds turns the values in front of it into those behind it.
pub proof fn lemma_step_maps<T: Copy, E: Failure, S: LocalStation<T, E>, const N: usize, const M: usize>(
    station: S,
    step: Step,
    entry: Pencil<N, M>,
    source: Seq<T>,
    array: (ManyPencilArray<T, N, M>, ManyPencilArray<T, N, M>),
    destination: (Seq<T>, Seq<T>),
    line: usize,
)
    requires
        step_done::<T, E, S, N, M>(
            station,
            step,
            entry,
            source,
            array,
            destination,
            line,
            Ok(()),
        ),
    ensures
        match step.work {
            Work::Kernel(_) => maps::<T, T, E, S>(
                station,
                held(step.from, source, array.0, destination.0),
                held(step.to, source, array.1, destination.1),
            ),
            Work::Copy => held(step.to, source, array.1, destination.1) == held(
                step.from,
                source,
                array.0,
                destination.0,
            ),
            _ => false,
        },
{
    if step.from == Slot::Source && step.to == Slot::Complex {
        let index = choose|index: int|
            {
                &&& #[trigger] layout_index(array.0.pencils@, entry, index)
                &&& array.1.active == Some(index as usize)
                &&& match step.work {
                    Work::Kernel(_) => station.leaves(
                        source,
                        array.0.storage@.subrange(
                            0,
                            layout_len(array.0, index),
                        ),
                        array.1.storage@.subrange(
                            0,
                            layout_len(array.0, index),
                        ),
                        line,
                        Ok(()),
                    ),
                    _ => Station::<T, T, E>::leaves(
                        &CopyStation {  },
                        source,
                        array.0.storage@.subrange(
                            0,
                            layout_len(array.0, index),
                        ),
                        array.1.storage@.subrange(
                            0,
                            layout_len(array.0, index),
                        ),
                        line,
                        Ok(()),
                    ),
                }
            };
        assert(array.0.pencils.len() == array.0.pencils@.len());
        assert(array.1.active_len() == layout_len(array.0, index));
    }
}

/// A stage that succeeds in place turns the active values into those behind it.
pub proof fn lemma_applied_maps<T, E: Failure, S: Station<T, T, E>, const N: usize, const M: usize>(
    station: S,
    before: ManyPencilArray<T, N, M>,
    after: ManyPencilArray<T, N, M>,
    line: usize,
)
    requires
        applied::<T, E, S, N, M>(station, before, after, line, Ok(())),
    ensures
        maps::<T, T, E, S>(station, active_values(before), active_values(after)),
{
    assert(after.active_len() == before.active_len());
}

} // verus!
