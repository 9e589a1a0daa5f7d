//! What makes the local work and the exchanges of an execution succeed.

use vstd::prelude::*;

use crate::array::ManyPencilArray;
use crate::carrier::carried;
use crate::carrier::carries;
use crate::carrier::carries_split;
use crate::carrier::Load;
use crate::course::next_place;
use crate::course::Place;
use crate::error::Failure;
use crate::error::FftError;
use crate::error::OverlapError;
use crate::inspect::Inspector;
use crate::layout::Direction;
use crate::layout::Pencil;
use crate::perform::step_done;
use crate::registry::has_layout;
use crate::round_shared::all_wf;
use crate::round_shared::lies_in;
use crate::scalar::Complex;
use crate::scalar::FftReal;
use crate::schedule::Itinerary;
use crate::schedule::Slot;
use crate::schedule::Step;
use crate::schedule::Work;
use crate::station::applied;
use crate::station::departed;
use crate::station::entered;
use crate::station::front_written;
use crate::station::layout_index;
use crate::station::layout_len;
use crate::station::CopyStation;
use crate::station::LocalStation;
use crate::station::Station;
use crate::sweep::sweep_error;
use crate::sweep::swept;
use crate::sweep::SweepError;
use crate::sweep::SweepLens;
use crate::transition::Passage;
use crate::transition::Transition;

verus! {

/// A kernel that makes lines of `result_len` elements of lines of `source_len` rejects none, one by
/// one or several at once.
pub open spec fn accepts<A, B, E, F: Fn(&[A], usize) -> Result<Vec<B>, E>>(
    kernel: F,
    source_len: int,
    result_len: int,
) -> bool {
    forall|input: &[A], len: usize, error: E|
        input@.len() as int % source_len == 0 && len == (input@.len() as int / source_len) * result_len
            ==> !#[trigger] kernel.ensures((input, len), Err(error))
}

/// The lengths of a sweep fit: the lines divide the elements, as many come out as went in, and the
/// buffers hold one of each.
pub open spec fn sweep_fits(
    stride: Option<usize>,
    source: int,
    destination: int,
    line: usize,
    lens: SweepLens,
) -> bool {
    &&& sweep_error(stride, source, destination, line, lens) is None
    &&& lens.source_len > 0
    &&& source % lens.source_len as int == 0
    &&& destination == (source / lens.source_len as int) * lens.result_len
}

/// The work of a stage does not fail on so many elements.
pub open spec fn station_holds<A, B, E, S: Station<A, B, E>>(
    station: S,
    source_len: int,
    result_len: int,
    line: usize,
) -> bool {
    forall|source: Seq<A>, original: Seq<B>, result: Seq<B>, outcome: Result<(), E>| #[trigger]
        station.leaves(source, original, result, line, outcome) && source.len() == source_len
            && original.len() == result_len ==> outcome is Ok
}

/// A copy does not fail where the lengths agree.
pub proof fn lemma_copy_holds<T: Copy, E: Failure>(len: int, line: usize)
    ensures
        station_holds::<T, T, E, CopyStation>(CopyStation {  }, len, len, line),
{
}

/// A sweep whose lengths fit does not fail where the kernel rejects no line.
pub proof fn lemma_sweep_holds<A, B, E, F: Fn(&[A], usize) -> Result<Vec<B>, E>>(
    kernel: F,
    stride: Option<usize>,
    source: Seq<A>,
    original: Seq<B>,
    result: Seq<B>,
    line: usize,
    lens: SweepLens,
    outcome: Result<(), SweepError<E>>,
)
    requires
        accepts::<A, B, E, F>(kernel, lens.source_len as int, lens.result_len as int),
        sweep_fits(stride, source.len() as int, original.len() as int, line, lens),
        swept::<A, B, E, F>(kernel, stride, source, original, result, line, lens, outcome),
    ensures
        outcome is Ok,
{
    let len = lens.source_len as int;
    assert(len % len == 0 && len / len == 1) by (nonlinear_arith)
        requires
            len > 0,
    ;
    assert(1 * lens.result_len == lens.result_len);
}

/// The parts of an array belong together, so do those of its layouts, and that of `entry` is one.
pub open spec fn in_order<T, const N: usize, const M: usize>(
    array: ManyPencilArray<T, N, M>,
    extra: int,
    entry: Pencil<N, M>,
) -> bool {
    &&& array.wf()
    &&& all_wf(array.pencils@)
    &&& array.extra_shape.element_count == extra
    &&& has_layout(array.pencils@, entry)
}

/// The layouts from `low` to `high` are registered.
pub open spec fn registered<T, const N: usize, const M: usize>(
    array: ManyPencilArray<T, N, M>,
    layouts: Seq<Pencil<N, M>>,
    low: int,
    high: int,
) -> bool {
    forall|i: int| low <= i < high ==> has_layout(array.pencils@, #[trigger] layouts[i])
}

/// The layout that exchange `index` leads to.
pub open spec fn led_to<const N: usize, const M: usize>(
    layouts: Seq<Pencil<N, M>>,
    direction: Direction,
    index: usize,
) -> Pencil<N, M> {
    layouts[if direction == Direction::Forward {
        index + 1
    } else {
        index as int
    }]
}

/// The active layout of an array has so many elements.
pub open spec fn stands_at<T, const N: usize, const M: usize>(
    array: ManyPencilArray<T, N, M>,
    len: int,
) -> bool {
    array.active is Some && array.active_len() == len
}

/// Exchanges of arrays in order, in which the layout of the next stage is registered, succeed and
/// lead to that layout.
pub open spec fn leads_on<T, X: Fn(usize, Passage, Load<T, N, M>) -> (Load<T, N, M>, Result<(), FftError>), const N: usize, const M: usize>(
    exchange: X,
    transitions: Seq<Transition>,
    direction: Direction,
    layouts: Seq<Pencil<N, M>>,
) -> bool {
    forall|index: usize, before: Load<T, N, M>, after: Load<T, N, M>, answer: Result<(), FftError>|
        index < transitions.len() && before.0.wf() && before.0.active is Some && has_layout(
            before.0.pencils@,
            led_to(layouts, direction, index),
        ) && #[trigger] exchange.ensures(
            (index, transitions[index as int].spec_passage(direction), before),
            (after, answer),
        ) ==> answer is Ok && lies_in(
            after.0,
            led_to(layouts, direction, index),
        )
}

/// Layouts that are alike have the same length.
pub proof fn lemma_same_len<const N: usize, const M: usize>(one: Pencil<N, M>, other: Pencil<N, M>)
    requires
        one.wf(),
        other.wf(),
        one.spec_same_layout(&other),
    ensures
        one.local_len == other.local_len,
{
    assert(one.memory_extents() =~= other.memory_extents());
}

/// Work that does not fail enters the values.
pub proof fn lemma_entered_holds<A, B, E: Failure, S: Station<A, B, E>, const N: usize, const M: usize>(
    station: S,
    source: Seq<A>,
    before: ManyPencilArray<B, N, M>,
    after: ManyPencilArray<B, N, M>,
    pencil: Pencil<N, M>,
    line: usize,
    outcome: Result<(), E>,
    extra: int,
)
    requires
        entered::<A, B, E, S, N, M>(station, source, before, after, pencil, line, outcome),
        in_order(before, extra, pencil),
        pencil.wf(),
        station_holds::<A, B, E, S>(
            station,
            source.len() as int,
            pencil.local_len * extra,
            line,
        ),
    ensures
        outcome is Ok,
        in_order(after, extra, pencil),
        after.pencils == before.pencils,
        stands_at(after, pencil.local_len * extra),
{
    let index = choose|index: int|
        {
            &&& #[trigger] layout_index(before.pencils@, pencil, index)
            &&& station.leaves(
                source,
                before.storage@.subrange(0, layout_len(before, index)),
                after.storage@.subrange(0, layout_len(before, index)),
                line,
                outcome,
            )
            &&& front_written(before, after, layout_len(before, index))
            &&& after.active == if outcome is Ok {
                Some(index as usize)
            } else {
                None
            }
        };
    lemma_same_len(before.pencils@[index], pencil);
    let placed = ManyPencilArray { active: Some(index as usize), ..before };
    assert(before.pencils.len() == before.pencils@.len());
    placed.lemma_active_fits();
    assert(layout_len(before, index) == pencil.local_len * extra);
    assert(before.storage@.subrange(0, layout_len(before, index)).len() == pencil.local_len
        * extra);
}

/// Work that does not fail is applied.
pub proof fn lemma_applied_holds<T, E: Failure, S: Station<T, T, E>, const N: usize, const M: usize>(
    station: S,
    before: ManyPencilArray<T, N, M>,
    after: ManyPencilArray<T, N, M>,
    line: usize,
    outcome: Result<(), E>,
    extra: int,
    entry: Pencil<N, M>,
    len: int,
)
    requires
        applied::<T, E, S, N, M>(station, before, after, line, outcome),
        in_order(before, extra, entry),
        stands_at(before, len),
        station_holds::<T, T, E, S>(station, len, len, line),
    ensures
        outcome is Ok,
        in_order(after, extra, entry),
        after.pencils == before.pencils,
        stands_at(after, len),
{
    before.lemma_active_fits();
}

/// Work that does not fail takes the values out.
pub proof fn lemma_departed_holds<A, B, E: Failure, S: Station<A, B, E>, const N: usize, const M: usize>(
    station: S,
    array: ManyPencilArray<A, N, M>,
    original: Seq<B>,
    result: Seq<B>,
    line: usize,
    outcome: Result<(), E>,
    len: int,
)
    requires
        departed::<A, B, E, S, N, M>(station, array, original, result, line, outcome),
        array.wf(),
        stands_at(array, len),
        station_holds::<A, B, E, S>(station, len, original.len() as int, line),
    ensures
        outcome is Ok,
{
    array.lemma_active_fits();
}

/// Exchanges that lead on lead on.
pub proof fn lemma_carried_holds<T, E: Failure, X: Fn(usize, Passage, Load<T, N, M>) -> (Load<T, N, M>, Result<(), FftError>), const N: usize, const M: usize>(
    exchange: X,
    transitions: Seq<Transition>,
    direction: Direction,
    layouts: Seq<Pencil<N, M>>,
    index: usize,
    before: Load<T, N, M>,
    after: Load<T, N, M>,
    outcome: Result<(), E>,
    extra: int,
    entry: Pencil<N, M>,
)
    requires
        carried::<T, E, X, N, M>(exchange, transitions, direction, index, before, after, outcome),
        carries::<T, X, N, M>(exchange),
        leads_on::<T, X, N, M>(exchange, transitions, direction, layouts),
        index < transitions.len(),
        layouts.len() == transitions.len() + 1,
        all_wf(layouts),
        before.0.active is Some,
        in_order(before.0, extra, entry),
        has_layout(before.0.pencils@, led_to(layouts, direction, index)),
    ensures
        outcome is Ok,
        in_order(after.0, extra, entry),
        after.0.pencils == before.0.pencils,
        stands_at(
            after.0,
            led_to(layouts, direction, index).local_len * extra,
        ),
{
    let answer = choose|answer: Result<(), FftError>|
        {
            &&& #[trigger] exchange.ensures(
                (index, transitions[index as int].spec_passage(direction), before),
                (after, answer),
            )
            &&& outcome == match answer {
                Ok(_) => Ok::<(), E>(()),
                Err(error) => Err(E::spec_of_fft(error)),
            }
        };
    match answer {
        Ok(done) => {
            assert(answer == Ok::<(), FftError>(()));
        },
        Err(_) => {},
    }
    let next = led_to(layouts, direction, index);
    assert(lies_in(after.0, next));
    lemma_same_len(after.0.pencils@[after.0.active->0 as int], next);
}

/// Where the values of an execution with one array are, and that all lengths are as they should.
pub open spec fn single_lies<T, const N: usize, const M: usize>(
    layouts: Seq<Pencil<N, M>>,
    extra: int,
    forward: bool,
    at: Place,
    source_len: int,
    array: ManyPencilArray<T, N, M>,
    destination_len: int,
) -> bool {
    let (first, last) = if forward {
        (layouts[0], layouts.last())
    } else {
        (layouts.last(), layouts[0])
    };
    &&& in_order(
        array,
        extra,
        first,
    )
    &&& registered(array, layouts, 0, layouts.len() as int)
    &&& source_len == first.local_len * extra
    &&& at.slot != Slot::Destination ==> destination_len == last.local_len * extra
    &&& at.slot == Slot::Complex ==> stands_at(array, layouts[at.stage].local_len * extra)
}

/// A local step that does not fail leads on.
pub proof fn lemma_step_holds<T: Copy, E: Failure, S: LocalStation<T, E>, const N: usize, const M: usize>(
    route: Itinerary,
    forward: bool,
    station: S,
    step: Step,
    at: Place,
    layouts: Seq<Pencil<N, M>>,
    extra: int,
    source: Seq<T>,
    array: (ManyPencilArray<T, N, M>, ManyPencilArray<T, N, M>),
    destination: (Seq<T>, Seq<T>),
    line: usize,
    outcome: Result<(), E>,
)
    requires
        !route.kind.spec_has_boundary(),
        layouts.len() == route.stages,
        all_wf(layouts),
        next_place(route, forward, step, at) is Some,
        !(step.work is Exchange),
        single_lies(
            layouts,
            extra,
            forward,
            at,
            source.len() as int,
            array.0,
            destination.0.len() as int,
        ),
        step_done::<T, E, S, N, M>(
            station,
            step,
            if forward {
                layouts[0]
            } else {
                layouts.last()
            },
            source,
            array,
            destination,
            line,
            outcome,
        ),
        step.work is Kernel ==> station_holds::<T, T, E, S>(
            station,
            layouts[at.stage].local_len * extra,
            layouts[at.stage].local_len * extra,
            line,
        ),
    ensures
        outcome is Ok,
        single_lies(
            layouts,
            extra,
            forward,
            next_place(route, forward, step, at)->0,
            source.len() as int,
            array.1,
            destination.1.len() as int,
        ),
{
    let entry = if forward {
        layouts[0]
    } else {
        layouts.last()
    };
    let len = layouts[at.stage].local_len * extra;
    lemma_copy_holds::<T, E>(len, line);
    match (step.work, step.from, step.to) {
        (Work::Kernel(_), Slot::Source, Slot::Complex) => {
            lemma_entered_holds::<T, T, E, S, N, M>(
                station,
                source,
                array.0,
                array.1,
                entry,
                line,
                outcome,
                extra,
            );
        },
        (Work::Copy, Slot::Source, Slot::Complex) => {
            lemma_entered_holds::<T, T, E, CopyStation, N, M>(
                CopyStation {  },
                source,
                array.0,
                array.1,
                entry,
                line,
                outcome,
                extra,
            );
        },
        (Work::Kernel(_), Slot::Complex, Slot::Complex) => {
            lemma_applied_holds::<T, E, S, N, M>(
                station,
                array.0,
                array.1,
                line,
                outcome,
                extra,
                entry,
                len,
            );
        },
        (Work::Kernel(_), Slot::Complex, Slot::Destination) => {
            lemma_departed_holds::<T, T, E, S, N, M>(
                station,
                array.0,
                destination.0,
                destination.1,
                line,
                outcome,
                len,
            );
        },
        (Work::Copy, Slot::Complex, Slot::Destination) => {
            lemma_departed_holds::<T, T, E, CopyStation, N, M>(
                CopyStation {  },
                array.0,
                destination.0,
                destination.1,
                line,
                outcome,
                len,
            );
        },
        _ => {},
    }
}

/// The parts of exchanges succeed: the values come in in the layout of the next stage, and waiting
/// for the own sends and the other processes leaves the active layout as it is.
pub open spec fn parts_lead_on<T, E, Y: Fn(usize, Direction, Option<bool>, Load<T, N, M>) -> (Load<T, N, M>, Result<(), OverlapError<E>>), const N: usize, const M: usize>(
    split: Y,
    direction: Direction,
    layouts: Seq<Pencil<N, M>>,
) -> bool {
    &&& forall|index: usize, before: Load<T, N, M>, after: Load<T, N, M>, answer: Result<(), OverlapError<E>>|
        before.0.wf() && before.0.active is Some && has_layout(
            before.0.pencils@,
            led_to(layouts, direction, index),
        ) && #[trigger] split.ensures((index, direction, None, before), (after, answer)) ==> answer is Ok && lies_in(
            after.0,
            led_to(layouts, direction, index),
        )
    &&& forall|index: usize, before: Load<T, N, M>, after: Load<T, N, M>, answer: Result<(), OverlapError<E>>|
        before.0.wf() && #[trigger] split.ensures((index, direction, Some(true), before), (after, answer))
            ==> answer is Ok && after.0.active == before.0.active
}

/// Parts that lead on bring the values in.
pub proof fn lemma_part_lands<T, E, Y: Fn(usize, Direction, Option<bool>, Load<T, N, M>) -> (Load<T, N, M>, Result<(), OverlapError<E>>), const N: usize, const M: usize>(
    split: Y,
    direction: Direction,
    layouts: Seq<Pencil<N, M>>,
    index: usize,
    before: Load<T, N, M>,
    after: Load<T, N, M>,
    outcome: Result<(), OverlapError<E>>,
    extra: int,
    entry: Pencil<N, M>,
)
    requires
        split.ensures((index, direction, None, before), (after, outcome)),
        carries_split::<T, E, Y, N, M>(split),
        parts_lead_on::<T, E, Y, N, M>(split, direction, layouts),
        index + 1 < layouts.len(),
        all_wf(layouts),
        before.0.active is Some,
        in_order(before.0, extra, entry),
        has_layout(before.0.pencils@, led_to(layouts, direction, index)),
    ensures
        outcome is Ok,
        in_order(after.0, extra, entry),
        after.0.pencils == before.0.pencils,
        stands_at(
            after.0,
            led_to(layouts, direction, index).local_len * extra,
        ),
{
    match outcome {
        Ok(done) => {
            assert(outcome == Ok::<(), OverlapError<E>>(()));
        },
        Err(_) => {},
    }
    let next = led_to(layouts, direction, index);
    assert(lies_in(after.0, next));
    lemma_same_len(after.0.pencils@[after.0.active->0 as int], next);
}

/// Parts that lead on leave the values in their layout while the processes wait.
pub proof fn lemma_part_settles<T, E, Y: Fn(usize, Direction, Option<bool>, Load<T, N, M>) -> (Load<T, N, M>, Result<(), OverlapError<E>>), const N: usize, const M: usize>(
    split: Y,
    direction: Direction,
    layouts: Seq<Pencil<N, M>>,
    index: usize,
    before: Load<T, N, M>,
    after: Load<T, N, M>,
    outcome: Result<(), OverlapError<E>>,
    extra: int,
    entry: Pencil<N, M>,
)
    requires
        split.ensures((index, direction, Some(true), before), (after, outcome)),
        carries_split::<T, E, Y, N, M>(split),
        parts_lead_on::<T, E, Y, N, M>(split, direction, layouts),
        in_order(before.0, extra, entry),
    ensures
        outcome is Ok,
        in_order(after.0, extra, entry),
        after.0.pencils == before.0.pencils,
        forall|len: int| stands_at(before.0, len) ==> stands_at(after.0, len),
{
    match outcome {
        Ok(done) => {
            assert(outcome == Ok::<(), OverlapError<E>>(()));
        },
        Err(_) => {},
    }
}

} // verus!
