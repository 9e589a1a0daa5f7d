//! What the steps of a half-complex execution keep of an allocation that serves both sides, and what
//! undoes a handoff.

use vstd::prelude::*;

use crate::array::ManyPencilArray;
use crate::carrier::carries;
use crate::carrier::Load;
use crate::convert::forward_handed;
use crate::convert::reverse_handed;
use crate::convert::same_lens;
use crate::error::Failure;
use crate::error::FftError;
use crate::error::MixedError;
use crate::error::R2cError;
use crate::half_carrier::shared_carried;
use crate::half_carrier::SharedLoad;
use crate::handoff::lanes;
use crate::handoff::lemma_forward_transfer;
use crate::handoff::lemma_reverse_transfer;
use crate::handoff::Boundary;
use crate::handoff::HalfComplexStorage;
use crate::handoff::SharedStorage;
use crate::inspect::HalfInspector;
use crate::inspect::Inspector;
use crate::inspect::MixedInspector;
use crate::laws::lemma_same_lines;
use crate::laws::undoes;
use crate::layout::Direction;
use crate::layout::ExtraShape;
use crate::layout::Pencil;
use crate::lines::line_at;
use crate::lines::line_maps;
use crate::local::LocalR2cPlan;
use crate::recast::forward_converted;
use crate::recast::reverse_converted;
use crate::registry::inputs_of;
use crate::registry::largest_local_len;
use crate::registry::lemma_distinct_layouts;
use crate::registry::lemma_largest_local_len;
use crate::registry::outputs_of;
use crate::registry::stages_wf;
use crate::registry::Stage;
use crate::round_half::HalfValues;
use crate::round_trip::active_values;
use crate::round_trip::lemma_exchanged;
use crate::scalar::Complex;
use crate::scalar::FftReal;
use crate::schedule::Slot;
use crate::shared::complex_side;
use crate::shared::fresh_shared;
use crate::shared::lemma_distinct_largest;
use crate::shared::lemma_same_layout_len;
use crate::shared::real_side;
use crate::shared::same_frame;
use crate::station::applied;
use crate::station::same_registry;
use crate::station::Station;
use crate::storage::boundary_rows;
use crate::storage::complex_need;
use crate::storage::lemma_bytes_bound;
use crate::storage::real_need;
use crate::transition::Passage;
use crate::transition::Transition;

verus! {

/// The allocation holds the real side.
pub open spec fn holds_real<R, const N: usize, const M: usize>(shared: SharedStorage<R, N, M>) -> bool {
    shared.storage matches Some(HalfComplexStorage::Real(_))
}

/// The allocation holds the complex side.
pub open spec fn holds_complex<R, const N: usize, const M: usize>(
    shared: SharedStorage<R, N, M>,
) -> bool {
    shared.storage matches Some(HalfComplexStorage::Complex(_))
}

/// The values of the active layout of the side that the allocation holds.
pub open spec fn shared_values<R, const N: usize, const M: usize>(
    shared: SharedStorage<R, N, M>,
) -> HalfValues<R> {
    if holds_complex(shared) {
        HalfValues::Complex(active_values(complex_side(shared)))
    } else {
        HalfValues::Real(active_values(real_side(shared)))
    }
}

/// The active layout is that of `pencil`.
pub open spec fn lies_in<T, const N: usize, const M: usize>(
    array: ManyPencilArray<T, N, M>,
    pencil: Pencil<N, M>,
) -> bool {
    array.spec_active_pencil() matches Ok(active) && active.spec_same_layout(&pencil)
}

/// An exchange that succeeds leads to the layout of `pencil`.
pub open spec fn lands_in<T, X: Fn(usize, Passage, Load<T, N, M>) -> (Load<T, N, M>, Result<(), FftError>), const N: usize, const M: usize>(
    exchange: X,
    index: usize,
    passage: Passage,
    pencil: Pencil<N, M>,
) -> bool {
    forall|before: Load<T, N, M>, after: Load<T, N, M>| #[trigger]
        exchange.ensures((index, passage, before), (after, Ok(()))) ==> lies_in(after.0, pencil)
}

/// Each layout is well formed.
pub open spec fn all_wf<const N: usize, const M: usize>(pencils: Seq<Pencil<N, M>>) -> bool {
    forall|i: int| 0 <= i < pencils.len() ==> (#[trigger] pencils[i]).wf()
}

/// The blocks in front of the boundary and behind it hold the same lines.
pub open spec fn lines_match<const N: usize, const M: usize>(boundary: Boundary<N, M>) -> bool {
    boundary.stage.input.local_len * boundary.plan.complex_len == boundary.stage.output.local_len
        * boundary.plan.real_len
}

/// The side that the allocation holds fills it, and the layouts of the other side wait.
pub open spec fn shelved<R, const N: usize, const M: usize>(
    boundary: Boundary<N, M>,
    shared: SharedStorage<R, N, M>,
) -> bool {
    match shared.storage {
        Some(HalfComplexStorage::Real(values)) => {
            &&& values.wf()
            &&& all_wf(values.pencils@)
            &&& values.extra_shape.element_count == boundary.extra
            &&& shared.real_storage_len == values.storage@.len()
            &&& shared.complex_pencils matches Some(waiting) && all_wf(waiting@)
                && shared.complex_storage_len == largest_local_len(waiting@) * boundary.extra
        },
        Some(HalfComplexStorage::Complex(values)) => {
            &&& values.wf()
            &&& all_wf(values.pencils@)
            &&& values.extra_shape.element_count == boundary.extra
            &&& shared.complex_storage_len == values.storage@.len()
            &&& shared.real_pencils matches Some(waiting) && all_wf(waiting@)
        },
        _ => false,
    }
}

/// How the allocation stands in front of move `index` of a forward execution with its boundary at
/// stage `edge`.
pub open spec fn stands<R, const N: usize, const M: usize>(
    boundary: Boundary<N, M>,
    edge: int,
    index: int,
    shared: SharedStorage<R, N, M>,
) -> bool {
    &&& shelved(boundary, shared)
    &&& if index <= 2 * edge {
        holds_real(shared) && (index == 2 * edge ==> lies_in(
            real_side(shared),
            boundary.stage.input,
        ))
    } else {
        holds_complex(shared) && (index == 2 * edge + 1 ==> lies_in(
            complex_side(shared),
            boundary.stage.output,
        ))
    }
}

/// How the allocation stands behind the move of a reverse execution that undoes move `index`.
pub open spec fn comes_back<R, const N: usize, const M: usize>(
    boundary: Boundary<N, M>,
    edge: int,
    index: int,
    shared: SharedStorage<R, N, M>,
) -> bool {
    if index <= 2 * edge {
        holds_real(shared)
    } else {
        stands(boundary, edge, index, shared)
    }
}

/// Clearing the endpoint planes keeps the layouts, the active one and the length.
pub open spec fn clearing_stays<R: FftReal, E, V: Inspector<R, E, N, M>, const N: usize, const M: usize>(
    inspector: V,
) -> bool {
    forall|
        before: ManyPencilArray<Complex<R>, N, M>,
        after: ManyPencilArray<Complex<R>, N, M>,
    | #[trigger]
        inspector.clears(before, after, Ok(())) ==> same_registry(before, after) && after.active
            == before.active && after.storage@.len() == before.storage@.len()
}

/// A handoff to the complex side turns the lines of `source` into those of `result`.
pub open spec fn hands_there<R, E, F: Fn(&[R], usize) -> Result<Vec<Complex<R>>, E>>(
    kernel: F,
    plan: LocalR2cPlan,
    rows: int,
    stride: int,
    source: Seq<R>,
    result: Seq<Complex<R>>,
) -> bool {
    &&& 0 <= rows
    &&& rows % lanes(stride) == 0
    &&& source.len() == rows * plan.real_len
    &&& result.len() == rows * plan.complex_len
    &&& forward_converted::<R, E, F>(
        kernel,
        source,
        result,
        rows / lanes(stride),
        plan.real_len as nat,
        plan.complex_len as nat,
        lanes(stride),
    )
}

/// A handoff to the real side turns the lines of `source` into those of `result`.
pub open spec fn hands_home<R, E, F: Fn(&[Complex<R>], usize) -> Result<Vec<R>, E>>(
    kernel: F,
    plan: LocalR2cPlan,
    rows: int,
    stride: int,
    source: Seq<Complex<R>>,
    result: Seq<R>,
) -> bool {
    &&& source.len() == rows * plan.complex_len
    &&& result.len() == rows * plan.real_len
    &&& reverse_converted::<R, E, F>(
        kernel,
        source,
        result,
        rows / lanes(stride),
        plan.complex_len as nat,
        plan.real_len as nat,
        lanes(stride),
    )
}

/// What a handoff may make of real values.
pub open spec fn handoff_makes<R, E, F: Fn(&[R], usize) -> Result<Vec<Complex<R>>, E>>(
    kernel: F,
    plan: LocalR2cPlan,
    rows: int,
    stride: int,
) -> spec_fn(Seq<Complex<R>>) -> bool {
    |values: Seq<Complex<R>>|
        exists|source: Seq<R>| #[trigger]
            hands_there::<R, E, F>(kernel, plan, rows, stride, source, values)
}

/// Rows in groups of lanes are as many elements.
pub proof fn lemma_groups(rows: int, len: int, step: int)
    requires
        0 < step,
        rows % step == 0,
    ensures
        (rows / step) * len * step == rows * len,
{
    assert((rows / step) * len * step == rows * len) by (nonlinear_arith)
        requires
            0 < step,
            rows % step == 0,
    ;
}

/// A handoff is undone by the handoff back with a kernel that undoes its own.
pub proof fn law_handoff_undone<R, E, F: Fn(&[R], usize) -> Result<Vec<Complex<R>>, E>, G: Fn(&[Complex<R>], usize) -> Result<Vec<R>, E>>(
    there: F,
    home: G,
    plan: LocalR2cPlan,
    rows: int,
    stride: int,
    source: Seq<R>,
    between: Seq<Complex<R>>,
    back: Seq<R>,
)
    requires
        plan.wf(),
        undoes::<R, Complex<R>, E, F, G>(there, home),
        hands_there::<R, E, F>(there, plan, rows, stride, source, between),
        hands_home::<R, E, G>(home, plan, rows, stride, between, back),
    ensures
        back == source,
{
    let step = lanes(stride);
    let groups = rows / step;
    let len = plan.real_len as nat;
    assert forall|p: int, q: int| 0 <= p < groups && 0 <= q < step implies #[trigger] line_at(
        back,
        p,
        q,
        len,
        step,
    ) == line_at(source, p, q, len, step) by {
        let line = line_at(between, p, q, plan.complex_len as nat, step);
        assert(line_maps::<R, Complex<R>, E, F>(there, line_at(source, p, q, len, step), line));
        assert(line_maps::<Complex<R>, R, E, G>(home, line, line_at(back, p, q, len, step)));
    }
    lemma_same_lines(back, source, groups, len, step);
    lemma_groups(rows, len as int, step);
    assert(back =~= source);
}

proof fn lemma_row_lens<const N: usize, const M: usize>(boundary: Boundary<N, M>, rows: int)
    requires
        boundary.plan.wf(),
        lines_match(boundary),
        boundary_rows(
            boundary.stage.input.local_len as int,
            boundary.plan.real_len as int,
            boundary.extra as int,
        ) == Some(rows),
    ensures
        0 <= rows,
        rows * boundary.plan.real_len == boundary.stage.input.local_len * boundary.extra,
        rows * boundary.plan.complex_len == boundary.stage.output.local_len * boundary.extra,
{
    let (len, real_len) = (boundary.stage.input.local_len as int, boundary.plan.real_len as int);
    let (other, complex_len) = (
        boundary.stage.output.local_len as int,
        boundary.plan.complex_len as int,
    );
    let extra = boundary.extra as int;
    let count = len / real_len;
    assert(count * real_len == len && 0 <= count) by (nonlinear_arith)
        requires
            0 < real_len,
            0 <= len,
            len % real_len == 0,
            count == len / real_len,
    ;
    assert(count * complex_len == other) by (nonlinear_arith)
        requires
            0 < real_len,
            count * real_len == len,
            len * complex_len == other * real_len,
    ;
    assert((count * extra) * real_len == len * extra && (count * extra) * complex_len == other
        * extra && 0 <= count * extra) by (nonlinear_arith)
        requires
            count * real_len == len,
            count * complex_len == other,
            0 <= count,
            0 <= extra,
    ;
}

/// Rows that can be counted behind the boundary are as many in front of it.
pub proof fn lemma_rows_agree<const N: usize, const M: usize>(boundary: Boundary<N, M>, rows: int)
    requires
        boundary.plan.wf(),
        lines_match(boundary),
        boundary_rows(
            boundary.stage.output.local_len as int,
            boundary.plan.complex_len as int,
            boundary.extra as int,
        ) == Some(rows),
    ensures
        boundary_rows(
            boundary.stage.input.local_len as int,
            boundary.plan.real_len as int,
            boundary.extra as int,
        ) == Some(rows),
{
    let (len, real_len) = (boundary.stage.input.local_len as int, boundary.plan.real_len as int);
    let (other, complex_len) = (
        boundary.stage.output.local_len as int,
        boundary.plan.complex_len as int,
    );
    let count = other / complex_len;
    assert(other == count * complex_len) by (nonlinear_arith)
        requires
            0 < complex_len,
            other % complex_len == 0,
            count == other / complex_len,
    ;
    assert(len == count * real_len) by (nonlinear_arith)
        requires
            0 < complex_len,
            other == count * complex_len,
            len * complex_len == other * real_len,
    ;
    assert(len % real_len == 0 && len / real_len == count) by (nonlinear_arith)
        requires
            0 < real_len,
            len == count * real_len,
    ;
}

/// As many values are active as the layout holds.
proof fn lemma_active_count<T, const N: usize, const M: usize>(
    array: ManyPencilArray<T, N, M>,
    pencil: Pencil<N, M>,
)
    requires
        array.wf(),
        all_wf(array.pencils@),
        pencil.wf(),
        lies_in(array, pencil),
    ensures
        array.active_len() == pencil.local_len * array.extra_shape.element_count,
        0 <= array.active_len() <= array.storage@.len(),
{
    array.lemma_active_fits();
    lemma_same_layout_len(array.pencils@[array.active->0 as int], pencil);
}

/// A completed handoff to the complex side turns the lines of the active layout.
pub proof fn lemma_handed_there<R, E, F: Fn(&[R], usize) -> Result<Vec<Complex<R>>, E>, const N: usize, const M: usize>(
    kernel: F,
    boundary: Boundary<N, M>,
    rows: int,
    stride: int,
    active: int,
    before: SharedStorage<R, N, M>,
    after: SharedStorage<R, N, M>,
)
    requires
        boundary.wf(),
        lines_match(boundary),
        shelved(boundary, before),
        holds_real(before),
        lies_in(real_side(before), boundary.stage.input),
        same_lens(before, after),
        boundary_rows(
            boundary.stage.input.local_len as int,
            boundary.plan.real_len as int,
            boundary.extra as int,
        ) == Some(rows),
        rows % lanes(stride) == 0,
        forward_handed::<R, E, F, N, M>(
            kernel,
            boundary.plan,
            rows,
            stride,
            active,
            before,
            after,
        ),
        complex_side(after).extra_shape.element_count == boundary.extra,
        lies_in(complex_side(after), boundary.stage.output),
    ensures
        shelved(boundary, after),
        holds_complex(after),
        hands_there::<R, E, F>(
            kernel,
            boundary.plan,
            rows,
            stride,
            active_values(real_side(before)),
            active_values(complex_side(after)),
        ),
{
    let (source, target) = (real_side(before), complex_side(after));
    let step = lanes(stride);
    lemma_row_lens(boundary, rows);
    lemma_active_count(source, boundary.stage.input);
    lemma_active_count(target, boundary.stage.output);
    lemma_groups(rows, boundary.plan.real_len as int, step);
    lemma_groups(rows, boundary.plan.complex_len as int, step);
    lemma_forward_transfer::<R, E, F>(
        kernel,
        source.storage@,
        active_values(source),
        target.storage@,
        active_values(target),
        rows / step,
        boundary.plan.real_len as nat,
        boundary.plan.complex_len as nat,
        step,
    );
}

/// A completed handoff to the real side turns the lines of the active layout.
pub proof fn lemma_handed_home<R, E, F: Fn(&[Complex<R>], usize) -> Result<Vec<R>, E>, const N: usize, const M: usize>(
    kernel: F,
    boundary: Boundary<N, M>,
    rows: int,
    stride: int,
    active: int,
    before: SharedStorage<R, N, M>,
    after: SharedStorage<R, N, M>,
)
    requires
        boundary.wf(),
        lines_match(boundary),
        shelved(boundary, before),
        holds_complex(before),
        lies_in(complex_side(before), boundary.stage.output),
        boundary_rows(
            boundary.stage.input.local_len as int,
            boundary.plan.real_len as int,
            boundary.extra as int,
        ) == Some(rows),
        rows % lanes(stride) == 0,
        reverse_handed::<R, E, F, N, M>(
            kernel,
            boundary.plan,
            rows,
            stride,
            active,
            before,
            after,
        ),
        real_side(after).extra_shape.element_count == boundary.extra,
        lies_in(real_side(after), boundary.stage.input),
    ensures
        holds_real(after),
        hands_home::<R, E, F>(
            kernel,
            boundary.plan,
            rows,
            stride,
            active_values(complex_side(before)),
            active_values(real_side(after)),
        ),
{
    let (source, target) = (complex_side(before), real_side(after));
    let step = lanes(stride);
    lemma_row_lens(boundary, rows);
    lemma_active_count(source, boundary.stage.output);
    lemma_active_count(target, boundary.stage.input);
    lemma_groups(rows, boundary.plan.real_len as int, step);
    lemma_groups(rows, boundary.plan.complex_len as int, step);
    lemma_reverse_transfer::<R, E, F>(
        kernel,
        source.storage@,
        active_values(source),
        target.storage@,
        active_values(target),
        rows / step,
        boundary.plan.complex_len as nat,
        boundary.plan.real_len as nat,
        step,
    );
}

/// An exchange in place that succeeds is one that was asked for and answered so. It stays on its
/// side.
pub proof fn lemma_shared_exchanged<R, E: Failure, XR: Fn(usize, Passage, Load<R, N, M>) -> (Load<R, N, M>, Result<(), FftError>), XC: Fn(usize, Passage, Load<Complex<R>, N, M>) -> (Load<Complex<R>, N, M>, Result<(), FftError>), const N: usize, const M: usize>(
    real_exchange: XR,
    exchange: XC,
    boundary: Boundary<N, M>,
    transitions: Seq<Transition>,
    direction: Direction,
    index: usize,
    at: Slot,
    before: SharedLoad<R, N, M>,
    after: SharedLoad<R, N, M>,
)
    requires
        carries::<R, XR, N, M>(real_exchange),
        carries::<Complex<R>, XC, N, M>(exchange),
        index < transitions.len(),
        at == Slot::Real || at == Slot::Complex,
        shared_carried::<R, E, XR, XC, N, M>(
            real_exchange,
            exchange,
            transitions,
            direction,
            index,
            at,
            before,
            after,
            Ok(()),
        ),
    ensures
        same_frame(before.shared, after.shared),
        shelved(boundary, before.shared) ==> shelved(boundary, after.shared),
        at == Slot::Real ==> {
            &&& holds_real(before.shared)
            &&& holds_real(after.shared)
            &&& real_exchange.ensures(
                (
                    index,
                    transitions[index as int].spec_passage(direction),
                    (real_side(before.shared), before.real_buffers->0),
                ),
                ((real_side(after.shared), after.real_buffers->0), Ok(())),
            )
        },
        at == Slot::Complex ==> {
            &&& holds_complex(before.shared)
            &&& holds_complex(after.shared)
            &&& exchange.ensures(
                (
                    index,
                    transitions[index as int].spec_passage(direction),
                    (complex_side(before.shared), before.buffers),
                ),
                ((complex_side(after.shared), after.buffers), Ok(())),
            )
        },
{
    if at == Slot::Real {
        lemma_exchanged::<R, E, XR, N, M>(
            real_exchange,
            transitions,
            direction,
            index,
            (real_side(before.shared), before.real_buffers->0),
            (real_side(after.shared), after.real_buffers->0),
        );
    } else {
        lemma_exchanged::<Complex<R>, E, XC, N, M>(
            exchange,
            transitions,
            direction,
            index,
            (complex_side(before.shared), before.buffers),
            (complex_side(after.shared), after.buffers),
        );
    }
}

/// Work on the complex side keeps it filled, in its layout.
pub proof fn lemma_complex_worked<R, E: Failure, S: Station<Complex<R>, Complex<R>, E>, const N: usize, const M: usize>(
    station: S,
    boundary: Boundary<N, M>,
    before: SharedStorage<R, N, M>,
    after: SharedStorage<R, N, M>,
    line: usize,
)
    requires
        shelved(boundary, before),
        holds_complex(before),
        holds_complex(after),
        same_frame(before, after),
        applied::<Complex<R>, E, S, N, M>(
            station,
            complex_side(before),
            complex_side(after),
            line,
            Ok(()),
        ),
    ensures
        shelved(boundary, after),
{
}

/// Work on the real side keeps it filled, in its layout.
pub proof fn lemma_real_worked<R, E: Failure, S: Station<R, R, E>, const N: usize, const M: usize>(
    station: S,
    boundary: Boundary<N, M>,
    before: SharedStorage<R, N, M>,
    after: SharedStorage<R, N, M>,
    line: usize,
)
    requires
        shelved(boundary, before),
        holds_real(before),
        holds_real(after),
        same_frame(before, after),
        applied::<R, E, S, N, M>(station, real_side(before), real_side(after), line, Ok(())),
    ensures
        shelved(boundary, after),
{
}

/// Clearing the planes of a real-to-complex plan keeps the layouts, the active one and the length.
pub proof fn law_half_clearing_stays<R: FftReal, S: Copy, A: Fn(bool) -> bool, X: Fn(&S, S, usize, Complex<R>) -> S, U: Fn(S) -> S, Y: Fn(&S, S, usize, Complex<R>) -> S, W: Fn(S) -> S, J: Fn(S, S, S) -> bool, const N: usize, const M: usize>(
    inspector: HalfInspector<S, A, X, U, Y, W, J, N, M>,
)
    ensures
        clearing_stays::<R, R2cError, HalfInspector<S, A, X, U, Y, W, J, N, M>, N, M>(inspector),
{
}

/// Clearing the planes of a mixed plan keeps the layouts, the active one and the length.
pub proof fn law_mixed_clearing_stays<R: FftReal, S: Copy, A: Fn(bool) -> bool, X: Fn(&S, S, usize, Complex<R>) -> S, U: Fn(S) -> S, Y: Fn(&S, S, usize, Complex<R>) -> S, W: Fn(S) -> S, J: Fn(S, S, S) -> bool, const N: usize, const M: usize>(
    inspector: MixedInspector<S, A, X, U, Y, W, J, N, M>,
)
    ensures
        clearing_stays::<R, MixedError, MixedInspector<S, A, X, U, Y, W, J, N, M>, N, M>(
            inspector,
        ),
{
}

/// A new allocation can be taken there and back: the real side fills it in the layout of the first
/// stage, and of the complex layouts that wait the first is the one behind the boundary.
pub proof fn law_fresh_allocation_stands<R: FftReal, const N: usize, const M: usize>(
    shared: SharedStorage<R, N, M>,
    stages: Seq<Stage<N, M>>,
    edge: usize,
    extra_shape: ExtraShape,
    boundary: Boundary<N, M>,
)
    requires
        stages_wf(stages),
        edge < stages.len(),
        boundary.stage == stages[edge as int],
        boundary.extra == extra_shape.element_count,
        fresh_shared(shared, stages, edge, extra_shape),
    ensures
        shelved(boundary, shared),
        holds_real(shared),
        lies_in(real_side(shared), stages[0].input),
        shared.complex_pencils->0@.len() > 0,
        shared.complex_pencils->0@[0] == boundary.stage.output,
{
    let extra = extra_shape.element_count as int;
    let inputs = inputs_of(stages.take(edge + 1));
    let outputs = outputs_of(stages.skip(edge as int));
    assert forall|i: int| 0 <= i < inputs.len() implies (#[trigger] inputs[i]).wf() by {
        assert(inputs[i] == stages[i].input);
        assert(stages[i].wf());
    }
    assert forall|i: int| 0 <= i < outputs.len() implies (#[trigger] outputs[i]).wf() by {
        assert(outputs[i] == stages[edge + i].output);
        assert(stages[edge + i].wf());
    }
    lemma_distinct_layouts(inputs);
    lemma_distinct_layouts(outputs);
    lemma_distinct_largest(inputs);
    lemma_distinct_largest(outputs);
    lemma_largest_local_len(outputs);
    let (reals, complexes) = (
        real_need(stages, edge as int, extra),
        complex_need(stages, edge as int, extra),
    );
    let values = real_side(shared);
    let stored: usize = values.storage.len();
    assert(values.storage@.len() == stored);
    let stride = boundary.stage.input.stride_along(boundary.stage.axis as int)->0;
    assert(0 <= complexes) by (nonlinear_arith)
        requires
            complexes == largest_local_len(outputs) * extra,
            0 <= extra,
    ;
    R::lemma_bytes();
    lemma_bytes_bound(reals, complexes, stride as int, R::bytes() as int);
    assert(inputs[0] == stages[0].input);
    assert(outputs[0] == boundary.stage.output);
}

} // verus!
