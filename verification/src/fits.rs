//! The lines of every plan that was built fit the blocks of a process.

use vstd::prelude::*;

use crate::boundary::DepthTerm;
use crate::error::BackendInitError;
use crate::error::FftError;
use crate::error::LocalC2cError;
use crate::error::LocalR2cError;
use crate::error::LocalR2rError;
use crate::holds::sweep_fits;
use crate::layout::lemma_product_split;
use crate::layout::product;
use crate::layout::AxisSelection;
use crate::layout::ExtraShape;
use crate::layout::Pencil;
use crate::layout::TransposeMethod;
use crate::local::AxisR2rKind;
use crate::local::BackendChoice;
use crate::local::LocalC2cPlan;
use crate::local::LocalR2cPlan;
use crate::local::LocalR2rPlan;
use crate::local::LocalTransform;
use crate::local::MixedComplexLocal;
use crate::local::MixedR2cStageLocal;
use crate::local::MixedRealLocal;
use crate::local::R2rKind;
use crate::mixed_build::MixedAsk;
use crate::mixed_build::MixedFacts;
use crate::mixed_c2c::MixedC2cCore;
use crate::mixed_c2c_build::mixed_c2c_built;
use crate::mixed_c2c_build::mixed_c2c_built_in;
use crate::mixed_prepare::mixed_r2c_stage_at;
use crate::mixed_prepare::strided_complex_lines;
use crate::mixed_prepare::Planners;
use crate::mixed_r2c::MixedR2cCore;
use crate::mixed_r2c_build::mixed_pair_routed;
use crate::mixed_r2c_build::mixed_r2c_built;
use crate::mixed_r2c_build::mixed_r2c_built_in;
use crate::mixed_r2c_build::mixed_r2c_lens_hold;
use crate::mixed_r2c_build::mixed_r2c_stages_hold;
use crate::mixed_r2c_build::strided_half_lines;
use crate::mixed_r2c_build::strided_real_lines;
use crate::perform::HalfLens;
use crate::prepare::largest_of;
use crate::prepare::lemma_largest_of;
use crate::prepare::r2c_stage_at;
use crate::prepare::RouteCandidate;
use crate::prepare::RoutePair;
use crate::r2c::TransformPlanCore;
use crate::r2c_build::longest_strided;
use crate::r2c_build::r2c_built;
use crate::r2c_build::r2c_built_in;
use crate::r2c_build::r2c_planners_answer;
use crate::r2c_build::r2c_routed;
use crate::r2c_build::r2c_stages_hold;
use crate::r2c_build::strided_c2c_lines;
use crate::r2c_build::R2cFacts;
use crate::r2c_build::R2cPlanners;
use crate::r2r::strided_r2r_lines;
use crate::r2r::R2rCore;
use crate::r2r_build::r2r_built;
use crate::r2r_build::r2r_built_in;
use crate::r2r_build::R2rFacts;
use crate::registry::Stage;
use crate::request::PlanRequest;
use crate::rooms::Rooms;
use crate::stages::boundary_forward_lens;
use crate::stages::boundary_reverse_lens;
use crate::stages::complex_lens;
use crate::stages::mixed_r2r_lens;
use crate::stages::r2r_lens;
use crate::sweep::SweepLens;
use crate::transition::TransitionPlan;
use crate::world::World;

verus! {

/// Two layouts differ in the extent of `axis` alone.
pub open spec fn resized<const N: usize, const M: usize>(
    from: Pencil<N, M>,
    to: Pencil<N, M>,
    axis: int,
) -> bool {
    &&& from.memory_order@ == to.memory_order@
    &&& forall|other: int|
        0 <= other < N && other != axis ==> #[trigger] from.local_shape@[other]
            == to.local_shape@[other]
}

/// The lines of `axis` can be counted: the block holds something, or what would lie side by side in
/// it is a length.
pub open spec fn countable<const N: usize, const M: usize>(pencil: Pencil<N, M>, axis: int) -> bool {
    pencil.local_len > 0 || {
        &&& pencil.local_shape@[axis] > 0
        &&& pencil.stride_along(axis) matches Some(stride) && pencil.local_shape@[axis] * stride
            <= usize::MAX
    }
}

/// The block is `rows` times the lines of `axis` that lie side by side, `stride` of them.
pub open spec fn in_rows<const N: usize, const M: usize>(
    pencil: Pencil<N, M>,
    axis: int,
    rows: int,
    stride: usize,
) -> bool {
    &&& rows > 0
    &&& stride > 0
    &&& pencil.local_len == rows * (pencil.local_shape@[axis] * stride)
}

/// Every axis has a position in memory.
pub proof fn lemma_axis_placed<const N: usize, const M: usize>(pencil: Pencil<N, M>, axis: int) -> (p:
    int)
    requires
        pencil.wf(),
        0 <= axis < N,
    ensures
        pencil.memory_position(axis, p),
{
    let order = pencil.memory_order@.map_values(|named: usize| named as int);
    let axes = vstd::set_lib::set_int_range(0, N as int);
    assert(order.no_duplicates()) by {
        assert forall|i: int, j: int| 0 <= i < order.len() && 0 <= j < order.len() && i != j implies order[i]
            != order[j] by {
            if i < j {
                assert(pencil.memory_order@[i] != pencil.memory_order@[j]);
            } else {
                assert(pencil.memory_order@[j] != pencil.memory_order@[i]);
            }
        }
    }
    order.unique_seq_to_set();
    vstd::set_lib::lemma_int_range(0, N as int);
    assert(order.to_set().subset_of(axes)) by {
        assert forall|named: int| order.to_set().contains(named) implies axes.contains(named) by {
            let i = choose|i: int| 0 <= i < order.len() && order[i] == named;
            assert(pencil.memory_order@[i] < N);
        }
    }
    vstd::seq_lib::seq_to_set_is_finite(order);
    vstd::set_lib::lemma_subset_equality(order.to_set(), axes);
    assert(axes.contains(axis));
    assert(order.contains(axis));
    let p = choose|p: int| 0 <= p < order.len() && order[p] == axis;
    assert forall|q: int| 0 <= q < p implies #[trigger] pencil.memory_order@[q] != axis by {
        assert(pencil.memory_order@[q] != pencil.memory_order@[p]);
    }
    p
}

/// The factors of a block that holds something count something, and no more than the block.
proof fn lemma_factors(extents: Seq<usize>, p: int)
    requires
        0 <= p < extents.len(),
        product(extents) > 0,
    ensures
        product(extents.take(p)) > 0,
        extents[p] > 0,
        0 < product(extents.skip(p + 1)) <= product(extents),
        extents[p] * product(extents.skip(p + 1)) <= product(extents),
        product(extents) == product(extents.take(p)) * (extents[p] * product(extents.skip(p + 1))),
{
    lemma_product_split(extents, p);
    let a = product(extents.take(p)) as int;
    let b = extents[p] as int;
    let c = product(extents.skip(p + 1)) as int;
    assert(a > 0 && b > 0 && c > 0 && c <= a * b * c && b * c <= a * b * c && a * b * c == a * (b * c))
        by (nonlinear_arith)
        requires
            a >= 0,
            b >= 0,
            c >= 0,
            a * b * c > 0,
    ;
}

/// A block that holds something has a stride along each axis, and its lines fill it.
pub proof fn law_block_in_rows<const N: usize, const M: usize>(pencil: Pencil<N, M>, axis: int)
    requires
        pencil.wf(),
        0 <= axis < N,
        pencil.local_len > 0,
    ensures
        pencil.stride_along(axis) is Some,
        pencil.local_shape@[axis] > 0,
        pencil.local_shape@[axis] * pencil.stride_along(axis)->0 <= pencil.local_len,
        exists|rows: int| #[trigger] in_rows(pencil, axis, rows, pencil.stride_along(axis)->0),
{
    let extents = pencil.memory_extents();
    let p = lemma_axis_placed(pencil, axis);
    pencil.lemma_axis_position(axis, p);
    lemma_factors(extents, p);
    assert forall|q: int| p < q <= N implies product(#[trigger] extents.skip(q)) <= usize::MAX by {
        lemma_factors(extents, q - 1);
    }
    assert(pencil.strides_fit(p));
    assert(extents[p] == pencil.local_shape@[axis]);
    assert(in_rows(
        pencil,
        axis,
        product(extents.take(p)) as int,
        pencil.stride_along(axis)->0,
    ));
}

/// Blocks that differ in the extent of one axis have the same stride along it, and as many rows.
pub proof fn law_resized_in_rows<const N: usize, const M: usize>(
    from: Pencil<N, M>,
    to: Pencil<N, M>,
    axis: int,
)
    requires
        from.wf(),
        to.wf(),
        0 <= axis < N,
        resized(from, to, axis),
    ensures
        from.stride_along(axis) == to.stride_along(axis),
        from.local_len == 0 && from.local_shape@[axis] > 0 ==> to.local_len == 0,
        from.local_len > 0 && to.local_shape@[axis] > 0 ==> to.local_len > 0,
        from.local_len > 0 && to.local_len > 0 ==> exists|rows: int| #[trigger]
            in_rows(from, axis, rows, from.stride_along(axis)->0) && in_rows(
                to,
                axis,
                rows,
                from.stride_along(axis)->0,
            ),
{
    let p = lemma_axis_placed(from, axis);
    assert(to.memory_position(axis, p));
    from.lemma_axis_position(axis, p);
    to.lemma_axis_position(axis, p);
    let ours = from.memory_extents();
    let theirs = to.memory_extents();
    assert forall|q: int| 0 <= q < N && q != p implies ours[q] == theirs[q] by {
        if q < p {
            assert(from.memory_order@[q] != from.memory_order@[p]);
        } else {
            assert(from.memory_order@[p] != from.memory_order@[q]);
        }
        let other = from.memory_order@[q] as int;
        assert(from.local_shape@[other] == to.local_shape@[other]);
    }
    assert(ours.take(p) =~= theirs.take(p));
    assert forall|q: int| p < q <= N implies ours.skip(q) == theirs.skip(q) by {
        assert(ours.skip(q) =~= theirs.skip(q));
    }
    assert(from.strides_fit(p) == to.strides_fit(p));
    assert(from.stride_behind(p) == to.stride_behind(p));
    assert(ours[p] == from.local_shape@[axis]);
    assert(theirs[p] == to.local_shape@[axis]);
    lemma_product_split(ours, p);
    lemma_product_split(theirs, p);
    let a = product(ours.take(p)) as int;
    let c = product(ours.skip(p + 1)) as int;
    lemma_same_sign(a, from.local_shape@[axis] as int, to.local_shape@[axis] as int, c);
    if from.local_len > 0 && to.local_len > 0 {
        law_block_in_rows(from, axis);
        law_block_in_rows(to, axis);
        lemma_factors(ours, p);
        lemma_factors(theirs, p);
        let stride = from.stride_along(axis)->0;
        assert(in_rows(from, axis, a, stride) && in_rows(to, axis, a, stride));
    }
}

/// Products that differ in one factor are zero together, unless that factor is.
proof fn lemma_same_sign(a: int, b: int, d: int, c: int)
    requires
        a >= 0,
        b >= 0,
        c >= 0,
        d >= 0,
    ensures
        a * b * c == 0 && b > 0 ==> a * d * c == 0,
        a * b * c > 0 && d > 0 ==> a * d * c > 0,
{
    if b > 0 && a > 0 && c > 0 {
        assert(a * b * c > 0) by (nonlinear_arith)
            requires
                a > 0,
                b > 0,
                c > 0,
        ;
    }
    if d > 0 && a > 0 && c > 0 {
        assert(a * d * c > 0) by (nonlinear_arith)
            requires
                a > 0,
                d > 0,
                c > 0,
        ;
    }
    if a == 0 || c == 0 {
        assert(a * b * c == 0 && a * d * c == 0) by (nonlinear_arith)
            requires
                a == 0 || c == 0,
        ;
    }
}

/// Multiples of what lies side by side divide evenly.
proof fn lemma_rows_divide(rows: int, batch: int, len: int, stride: int)
    requires
        rows > 0,
        batch >= 0,
        len > 0,
        stride > 0,
    ensures
        (rows * (len * stride)) * batch % (len * stride) == 0,
        (rows * (len * stride)) * batch / (len * stride) == rows * batch,
        (rows * (len * stride)) * batch % len == 0,
        (rows * (len * stride)) * batch / len == rows * batch * stride,
        len * stride > 0,
{
    let whole = (rows * (len * stride)) * batch;
    assert(len * stride > 0) by (nonlinear_arith)
        requires
            len > 0,
            stride > 0,
    ;
    assert(whole == (rows * batch) * (len * stride)) by (nonlinear_arith)
        requires
            whole == (rows * (len * stride)) * batch,
    ;
    assert(whole == (rows * batch * stride) * len) by (nonlinear_arith)
        requires
            whole == (rows * (len * stride)) * batch,
    ;
    vstd::arithmetic::div_mod::lemma_fundamental_div_mod_converse(
        whole,
        len * stride,
        rows * batch,
        0,
    );
    vstd::arithmetic::div_mod::lemma_fundamental_div_mod_converse(
        whole,
        len,
        rows * batch * stride,
        0,
    );
}

/// A sweep from one block to another that differs in the extent of the axis alone fits, where the
/// buffers hold a line of each wherever lines do not lie in one piece.
pub proof fn law_sweep_fits<const N: usize, const M: usize>(
    from: Pencil<N, M>,
    to: Pencil<N, M>,
    axis: int,
    batch: int,
    line: usize,
    lens: SweepLens,
)
    requires
        from.wf(),
        to.wf(),
        0 <= axis < N,
        countable(from, axis),
        countable(to, axis),
        resized(from, to, axis),
        batch >= 0,
        lens.source_len == from.local_shape@[axis],
        lens.result_len == to.local_shape@[axis],
        from.stride_along(axis) matches Some(stride) && stride > 1 ==> line >= lens.source_len
            && lens.result_line >= lens.result_len,
    ensures
        sweep_fits(from.stride_along(axis), from.local_len * batch, to.local_len * batch, line, lens),
{
    law_resized_in_rows(from, to, axis);
    law_resized_in_rows(to, from, axis);
    let source_len = lens.source_len as int;
    let result_len = lens.result_len as int;
    if from.local_len > 0 {
        law_block_in_rows(from, axis);
        let stride = from.stride_along(axis)->0 as int;
        let rows = choose|rows: int| #[trigger]
            in_rows(from, axis, rows, from.stride_along(axis)->0) && in_rows(
                to,
                axis,
                rows,
                from.stride_along(axis)->0,
            );
        lemma_rows_divide(rows, batch, source_len, stride);
        assert((rows * (result_len * stride)) * batch == (rows * batch) * result_len * stride)
            by (nonlinear_arith);
        assert((rows * (result_len * stride)) * batch == (rows * batch * stride) * result_len)
            by (nonlinear_arith);
    } else {
        let stride = from.stride_along(axis)->0 as int;
        assert(0 * batch == 0 && 0 * result_len == 0 && 0 * stride == 0);
        if stride > 1 {
            assert(source_len * stride > 0) by (nonlinear_arith)
                requires
                    source_len > 0,
                    stride > 1,
            ;
            vstd::arithmetic::div_mod::lemma_div_basics(source_len * stride);
        }
        vstd::arithmetic::div_mod::lemma_div_basics(source_len);
    }
}

/// The lines of every stage can be counted.
pub open spec fn counts_lines<const N: usize, const M: usize>(stages: Seq<Stage<N, M>>) -> bool {
    forall|i: int|
        0 <= i < stages.len() ==> countable((#[trigger] stages[i]).input, stages[i].axis as int)
            && countable(stages[i].output, stages[i].axis as int)
}

/// The planners of mixed plans give kernels of the length that was asked for.
pub open spec fn planners_measure<C: Fn(BackendChoice, usize, bool) -> Result<LocalC2cPlan, BackendInitError<LocalC2cError>>, K: Fn(BackendChoice, AxisR2rKind, usize) -> Result<LocalR2rPlan, BackendInitError<LocalR2rError>>, B: Fn(BackendChoice, usize) -> Result<LocalR2cPlan, BackendInitError<LocalR2cError>>>(
    planners: Planners<C, K, B>,
) -> bool {
    &&& forall|backend: BackendChoice, len: usize, backward: bool, plan: LocalC2cPlan| #[trigger]
        planners.c2c.ensures((backend, len, backward), Ok(plan)) ==> plan.line_len == len
    &&& forall|backend: BackendChoice, kind: AxisR2rKind, len: usize, plan: LocalR2rPlan| #[trigger]
        planners.r2r.ensures((backend, kind, len), Ok(plan)) ==> plan.line_len == len
    &&& forall|backend: BackendChoice, len: usize, plan: LocalR2cPlan| #[trigger]
        planners.r2c.ensures((backend, len), Ok(plan)) ==> plan.real_len == len
}

/// The lines of a real-to-real or Hartley plan that was built fit wherever they can be
/// counted, for planners that give kernels of the length that was asked for: the line buffer that
/// the plan asks for holds each of them.
pub proof fn law_r2r_lines_fit<H: Fn([u64; 5]) -> bool, D: Fn(Option<Vec<u64>>, Option<usize>) -> Result<Vec<u64>, FftError>, A: Fn(bool) -> bool, P: Fn([usize; N]) -> Result<Pencil<N, M>, FftError>, Q: Fn(Pencil<N, M>, [usize; N], bool) -> Result<RouteCandidate<N, M>, FftError>, T: Fn(&Vec<Stage<N, M>>, &Vec<usize>, &ExtraShape, TransposeMethod, usize) -> Result<TransitionPlan, FftError>, K: Fn(AxisR2rKind, usize) -> Result<LocalR2rPlan, LocalR2rError>, const N: usize, const M: usize>(
    world: World<H, D, A, P, Q, T>,
    planner: K,
    facts: R2rFacts<N, M>,
    request: PlanRequest<[Option<R2rKind>; N], N, M>,
    core: R2rCore<N, M>,
    line: usize,
)
    requires
        forall|kind: AxisR2rKind, len: usize, plan: LocalR2rPlan| #[trigger]
            planner.ensures((kind, len), Ok(plan)) ==> plan.line_len == len,
        r2r_built(world, planner, facts, request, core),
        core.wf(),
        core.strided_line_len == largest_of(strided_r2r_lines(core.stages@, core.locals@)),
        counts_lines(core.stages@),
        line >= core.strided_line_len,
    ensures
        core.lines_fit(line),
{
    let rooms = choose|rooms: Rooms<N, M>| #[trigger]
        r2r_built_in(world, planner, facts, request, rooms, core);
    assert(r2r_built_in(world, planner, facts, request, rooms, core));
    let lines = strided_r2r_lines(core.stages@, core.locals@);
    lemma_largest_of(lines);
    assert forall|i: int| 0 <= i < core.stages@.len() implies #[trigger] core.line_fits(i, line) by {
        let stage = core.stages@[i];
        assert(stage.wf());
        assert(core.locals@[i] == core.locals@[i]);
        if let Some(plan) = core.locals@[i].plan() {
            assert(lines[i] <= core.strided_line_len);
            law_sweep_fits(
                stage.output,
                stage.output,
                stage.axis as int,
                core.extra_shape.element_count as int,
                line,
                r2r_lens(plan, line),
            );
        }
    }
}

/// The lines of a mixed complex plan that was built fit wherever they can be counted, for
/// planners that give kernels of the length that was asked for: the line buffer that the plan asks
/// for holds each of them.
pub proof fn law_mixed_c2c_lines_fit<H: Fn([u64; 5]) -> bool, D: Fn(Option<Vec<u64>>, Option<usize>) -> Result<Vec<u64>, FftError>, A: Fn(bool) -> bool, P: Fn([usize; N]) -> Result<Pencil<N, M>, FftError>, Q: Fn(Pencil<N, M>, [usize; N], bool) -> Result<RouteCandidate<N, M>, FftError>, T: Fn(&Vec<Stage<N, M>>, &Vec<usize>, &ExtraShape, TransposeMethod, usize) -> Result<TransitionPlan, FftError>, C: Fn(BackendChoice, usize, bool) -> Result<LocalC2cPlan, BackendInitError<LocalC2cError>>, K: Fn(BackendChoice, AxisR2rKind, usize) -> Result<LocalR2rPlan, BackendInitError<LocalR2rError>>, B: Fn(BackendChoice, usize) -> Result<LocalR2cPlan, BackendInitError<LocalR2cError>>, const N: usize, const M: usize>(
    world: World<H, D, A, P, Q, T>,
    planners: Planners<C, K, B>,
    facts: MixedFacts<M>,
    request: PlanRequest<MixedAsk<N>, N, M>,
    core: MixedC2cCore<N, M>,
    line: usize,
)
    requires
        planners_measure(planners),
        mixed_c2c_built(world, planners, facts, request, core),
        core.wf(),
        core.strided_line_len == largest_of(strided_complex_lines(core.stages@, core.locals@)),
        counts_lines(core.stages@),
        line >= core.strided_line_len,
    ensures
        core.lines_fit(line),
{
    let rooms = choose|rooms: Rooms<N, M>| #[trigger]
        mixed_c2c_built_in(world, planners, facts, request, rooms, core);
    assert(mixed_c2c_built_in(world, planners, facts, request, rooms, core));
    let lines = strided_complex_lines(core.stages@, core.locals@);
    lemma_largest_of(lines);
    assert forall|i: int| 0 <= i < core.stages@.len() implies #[trigger] core.line_fits(i, line) by {
        let stage = core.stages@[i];
        let local = core.locals@[i];
        assert(stage.wf());
        assert(lines[i] <= core.strided_line_len);
        if local !is Identity {
            law_sweep_fits(
                stage.output,
                stage.output,
                stage.axis as int,
                core.extra_shape.element_count as int,
                line,
                match local {
                    MixedComplexLocal::Fft(plan) => complex_lens(plan, line),
                    MixedComplexLocal::R2r(plan) => mixed_r2r_lens(plan.plan(), line),
                    MixedComplexLocal::Identity => arbitrary(),
                },
            );
        }
    }
}

/// The lines of a real-to-complex plan that was built fit wherever they can be counted, for
/// planners that give kernels of the length that was asked for and layouts of the boundary that
/// differ in the reduced axis alone: the line buffers that the plan asks for hold each of them.
pub proof fn law_r2c_lines_fit<H: Fn([u64; 5]) -> bool, D: Fn(Option<Vec<u64>>, Option<usize>) -> Result<Vec<u64>, FftError>, A: Fn(bool) -> bool, P: Fn([usize; N]) -> Result<Pencil<N, M>, FftError>, Q: Fn(Pencil<N, M>, [usize; N], bool) -> Result<RouteCandidate<N, M>, FftError>, T: Fn(&Vec<Stage<N, M>>, &Vec<usize>, &ExtraShape, TransposeMethod, usize) -> Result<TransitionPlan, FftError>, X: Fn(usize) -> Result<LocalC2cPlan, LocalC2cError>, Y: Fn(usize) -> Result<LocalR2cPlan, LocalR2cError>, E: Fn(u64, &Vec<usize>) -> Result<u64, FftError>, const N: usize, const M: usize>(
    world: World<H, D, A, P, Q, T>,
    planners: R2cPlanners<X, Y, E>,
    facts: R2cFacts<M>,
    request: PlanRequest<AxisSelection<N>, N, M>,
    core: TransformPlanCore<N, M>,
    lens: HalfLens,
    result_line: usize,
)
    requires
        r2c_planners_answer(planners),
        forall|n: usize, plan: LocalC2cPlan| #[trigger]
            planners.c2c.ensures((n,), Ok(plan)) ==> plan.line_len == n,
        r2c_built(world, planners, facts, request, core),
        core.wf(),
        core.strided_line_len == longest_strided(core),
        counts_lines(core.stages@),
        resized(
            core.stages@[core.boundary as int].input,
            core.stages@[core.boundary as int].output,
            core.stages@[core.boundary as int].axis as int,
        ),
        core.stages@[core.boundary as int].output.local_shape@[core.stages@[core.boundary as int].axis as int]
            == core.plan().complex_len,
        lens.complexes >= core.strided_line_len,
    ensures
        lens.crossing >= core.plan().real_len && result_line >= core.plan().complex_len
            ==> core.lines_fit_there(lens, result_line),
        lens.crossing >= core.strided_line_len && result_line >= core.plan().real_len
            ==> core.lines_fit_home(lens, result_line),
{
    let rooms = choose|rooms: Rooms<N, M>| #[trigger]
        r2c_built_in(world, planners, facts, request, rooms, core);
    assert(r2c_built_in(world, planners, facts, request, rooms, core));
    let extra = core.extra_shape.element_count as int;
    let at = core.boundary as int;
    let boundary = core.stages@[at];
    let lines = strided_c2c_lines(core.stages@, core.locals@);
    lemma_largest_of(lines);
    let routes = choose|routes: RoutePair<N, M>| #[trigger] r2c_routed(world, request, N - 1 - at, routes)
        && r2c_stages_hold(
        planners,
        routes,
        request.transform,
        at,
        core.stages@,
        core.locals@,
    );
    assert(boundary.wf());
    assert(r2c_stage_at(
        planners.c2c,
        planners.r2c,
        routes,
        request.transform,
        at,
        at,
        Ok(core.locals@[at]),
    ));
    law_resized_in_rows(boundary.input, boundary.output, boundary.axis as int);
    if lens.crossing >= core.plan().real_len && result_line >= core.plan().complex_len {
        law_sweep_fits(
            boundary.input,
            boundary.output,
            boundary.axis as int,
            extra,
            lens.crossing,
            boundary_forward_lens(core.plan(), result_line),
        );
    }
    if lens.crossing >= core.strided_line_len && result_line >= core.plan().real_len {
        law_sweep_fits(
            boundary.output,
            boundary.input,
            boundary.axis as int,
            extra,
            lens.crossing,
            boundary_reverse_lens(core.plan(), result_line),
        );
    }
    assert forall|i: int| at < i < core.stages@.len() implies #[trigger] core.tail_fits(
        i,
        lens.complexes,
    ) by {
        let stage = core.stages@[i];
        assert(stage.wf());
        assert(r2c_stage_at(
            planners.c2c,
            planners.r2c,
            routes,
            request.transform,
            at,
            i,
            Ok(core.locals@[i]),
        ));
        if let LocalTransform::Complex(plan) = core.locals@[i] {
            assert(lines[i] <= core.strided_line_len);
            law_sweep_fits(
                stage.output,
                stage.output,
                stage.axis as int,
                extra,
                lens.complexes,
                complex_lens(plan, lens.complexes),
            );
        }
    }
}

/// The lines of a mixed real-to-complex plan that was built fit wherever they can be counted, for
/// planners that give kernels of the length that was asked for and layouts of the boundary that
/// differ in the reduced axis alone: the line buffers that the plan asks for hold each of them.
pub proof fn law_mixed_r2c_lines_fit<H: Fn([u64; 5]) -> bool, D: Fn(Option<Vec<u64>>, Option<usize>) -> Result<Vec<u64>, FftError>, A: Fn(bool) -> bool, P: Fn([usize; N]) -> Result<Pencil<N, M>, FftError>, Q: Fn(Pencil<N, M>, [usize; N], bool) -> Result<RouteCandidate<N, M>, FftError>, T: Fn(&Vec<Stage<N, M>>, &Vec<usize>, &ExtraShape, TransposeMethod, usize) -> Result<TransitionPlan, FftError>, C: Fn(BackendChoice, usize, bool) -> Result<LocalC2cPlan, BackendInitError<LocalC2cError>>, K: Fn(BackendChoice, AxisR2rKind, usize) -> Result<LocalR2rPlan, BackendInitError<LocalR2rError>>, B: Fn(BackendChoice, usize) -> Result<LocalR2cPlan, BackendInitError<LocalR2cError>>, E: Fn(&Vec<DepthTerm>) -> Result<u64, FftError>, const N: usize, const M: usize>(
    world: World<H, D, A, P, Q, T>,
    planners: Planners<C, K, B>,
    threshold: E,
    facts: MixedFacts<M>,
    request: PlanRequest<MixedAsk<N>, N, M>,
    core: MixedR2cCore<N, M>,
    lens: HalfLens,
    result_line: usize,
)
    requires
        planners_measure(planners),
        mixed_r2c_built(world, planners, threshold, facts, request, core),
        core.wf(),
        mixed_r2c_lens_hold(core),
        counts_lines(core.stages@),
        resized(
            core.stages@[core.boundary as int].input,
            core.stages@[core.boundary as int].output,
            core.stages@[core.boundary as int].axis as int,
        ),
        lens.reals >= core.real_line_len,
        lens.complexes >= core.complex_line_len,
    ensures
        lens.crossing >= core.plan().real_len && result_line >= core.plan().complex_len
            ==> core.lines_fit_there(lens, result_line),
        lens.crossing >= core.plan().complex_len && result_line >= core.plan().real_len
            ==> core.lines_fit_home(lens, result_line),
{
    let rooms = choose|rooms: Rooms<N, M>| #[trigger]
        mixed_r2c_built_in(world, planners, threshold, facts, request, rooms, core);
    assert(mixed_r2c_built_in(world, planners, threshold, facts, request, rooms, core));
    let extra = core.extra_shape.element_count as int;
    let at = core.boundary as int;
    let boundary = core.stages@[at];
    let graph = request.transform.graph;
    let reals = strided_real_lines(core.stages@, core.locals@);
    let halves = strided_half_lines(core.stages@, core.locals@);
    lemma_largest_of(reals);
    lemma_largest_of(halves);
    let routes = choose|routes: RoutePair<N, M>| #[trigger]
        mixed_pair_routed(world, request, N - 1 - at, routes) && mixed_r2c_stages_hold(
            planners,
            routes,
            graph,
            at,
            core.stages@,
            core.locals@,
        );
    assert(boundary.wf());
    assert(mixed_r2c_stage_at(planners, routes, graph, at, at, Ok(core.locals@[at])));
    law_resized_in_rows(boundary.input, boundary.output, boundary.axis as int);
    if lens.crossing >= core.plan().real_len && result_line >= core.plan().complex_len {
        law_sweep_fits(
            boundary.input,
            boundary.output,
            boundary.axis as int,
            extra,
            lens.crossing,
            boundary_forward_lens(core.plan(), result_line),
        );
    }
    if lens.crossing >= core.plan().complex_len && result_line >= core.plan().real_len {
        law_sweep_fits(
            boundary.output,
            boundary.input,
            boundary.axis as int,
            extra,
            lens.crossing,
            boundary_reverse_lens(core.plan(), result_line),
        );
    }
    assert forall|i: int| 0 <= i < at implies #[trigger] core.prefix_fits(i, lens.reals) by {
        let stage = core.stages@[i];
        assert(stage.wf());
        assert(mixed_r2c_stage_at(planners, routes, graph, at, i, Ok(core.locals@[i])));
        assert(reals[i] <= core.real_line_len);
        if let MixedR2cStageLocal::Real(MixedRealLocal::R2r(plan)) = core.locals@[i] {
            law_sweep_fits(
                stage.output,
                stage.output,
                stage.axis as int,
                extra,
                lens.reals,
                mixed_r2r_lens(plan.plan(), lens.reals),
            );
        }
    }
    assert forall|i: int| at < i < core.stages@.len() implies #[trigger] core.tail_fits(
        i,
        lens.complexes,
    ) by {
        let stage = core.stages@[i];
        assert(stage.wf());
        assert(mixed_r2c_stage_at(planners, routes, graph, at, i, Ok(core.locals@[i])));
        assert(halves[i] <= core.complex_line_len);
        match core.locals@[i] {
            MixedR2cStageLocal::Complex(MixedComplexLocal::Fft(plan)) => {
                law_sweep_fits(
                    stage.output,
                    stage.output,
                    stage.axis as int,
                    extra,
                    lens.complexes,
                    complex_lens(plan, lens.complexes),
                );
            },
            MixedR2cStageLocal::Complex(MixedComplexLocal::R2r(plan)) => {
                law_sweep_fits(
                    stage.output,
                    stage.output,
                    stage.axis as int,
                    extra,
                    lens.complexes,
                    mixed_r2r_lens(plan.plan(), lens.complexes),
                );
            },
            _ => {},
        }
    }
}

} // verus!
