//! What holds of a transform and its way back, and of arrays that were interrupted between them.

use vstd::arithmetic::div_mod::lemma_fundamental_div_mod_converse;
use vstd::prelude::*;

use crate::convert::forward_handed;
use crate::convert::reverse_handed;
use crate::error::ArrayError;
use crate::error::FftError;
use crate::error::LocalR2cError;
use crate::error::LocalR2rError;
use crate::handoff::lanes;
use crate::handoff::SharedStorage;
use crate::kernels::ForwardCrossing;
use crate::kernels::MixedComplexStation;
use crate::kernels::R2rStation;
use crate::kernels::ReverseCrossing;
use crate::layout::C2cState;
use crate::layout::Direction;
use crate::layout::R2cState;
use crate::layout::R2rState;
use crate::lines::lemma_position_cover;
use crate::lines::line_at;
use crate::lines::line_maps;
use crate::local::LocalR2cPlan;
use crate::local::MixedComplexLocal;
use crate::mixed_c2c::c2c_state_behind;
use crate::mixed_c2c::mixed_c2c_in_place_error;
use crate::mixed_c2c::MixedC2cCore;
use crate::mixed_c2c::MixedC2cInPlaceArray;
use crate::mixed_c2c::MixedC2cInPlaceWorkspace;
use crate::mixed_r2c::mixed_r2c_in_place_error;
use crate::mixed_r2c::MixedR2cCore;
use crate::mixed_r2c::MixedR2cInPlaceArray;
use crate::mixed_r2c::MixedR2cInPlaceWorkspace;
use crate::r2c::r2c_in_place_error;
use crate::r2c::r2c_state_before;
use crate::r2c::r2c_state_behind;
use crate::r2c::R2cInPlaceArray;
use crate::r2c::R2cInPlaceWorkspace;
use crate::r2c::TransformPlanCore;
use crate::r2r::r2r_in_place_error;
use crate::r2r::R2rCore;
use crate::r2r::R2rInPlaceArray;
use crate::r2r::R2rInPlaceWorkspace;
use crate::recast::forward_converted;
use crate::recast::reverse_converted;
use crate::scalar::Complex;
use crate::scalar::FftReal;
use crate::scalar::R2rScalar;
use crate::shared::complex_side;
use crate::shared::complex_view_error;
use crate::shared::real_side;
use crate::shared::real_view_error;
use crate::stages::LocalError;
use crate::stages::boundary_forward_lens;
use crate::stages::boundary_reverse_lens;
use crate::stages::complex_lens;
use crate::stages::mixed_r2r_lens;
use crate::stages::r2r_lens;
use crate::station::Station;
use crate::sweep::swept;
use crate::sweep::SweepLens;

verus! {

/// `reverse` leads back from whatever `forward` makes of a line.
pub open spec fn undoes<A, B, E, F: Fn(&[A], usize) -> Result<Vec<B>, E>, G: Fn(&[B], usize) -> Result<Vec<A>, E>>(
    forward: F,
    reverse: G,
) -> bool {
    forall|source: Seq<A>, between: Seq<B>, back: Seq<A>|
        #![trigger line_maps::<A, B, E, F>(forward, source, between), line_maps::<B, A, E, G>(reverse, between, back)]
        line_maps::<A, B, E, F>(forward, source, between) && line_maps::<B, A, E, G>(
            reverse,
            between,
            back,
        ) && back.len() == source.len() ==> back == source
}

/// Two arrays with the same lines are the same as far as the lines reach.
pub proof fn lemma_same_lines<T>(left: Seq<T>, right: Seq<T>, count: int, len: nat, stride: int)
    requires
        0 < len,
        0 < stride,
        forall|p: int, q: int|
            0 <= p < count && 0 <= q < stride ==> #[trigger] line_at(left, p, q, len, stride)
                == line_at(right, p, q, len, stride),
    ensures
        forall|i: int| 0 <= i < count * len * stride ==> #[trigger] left[i] == right[i],
{
    assert forall|i: int| 0 <= i < count * len * stride implies #[trigger] left[i] == right[i] by {
        lemma_position_cover(i, count, len as int, stride);
        let p = i / stride / (len as int);
        let q = i % stride;
        let k = (i / stride) % (len as int);
        assert(line_at(left, p, q, len, stride) == line_at(right, p, q, len, stride));
        assert(line_at(left, p, q, len, stride)[k] == left[i]);
        assert(line_at(right, p, q, len, stride)[k] == right[i]);
    }
}

/// A sweep and the sweep of the kernel that undoes it give back the array.
pub proof fn law_sweep_round_trip<A, B, E, F: Fn(&[A], usize) -> Result<Vec<B>, E>, G: Fn(&[B], usize) -> Result<Vec<A>, E>>(
    forward: F,
    reverse: G,
    stride: Option<usize>,
    source: Seq<A>,
    between: (Seq<B>, Seq<B>),
    back: (Seq<A>, Seq<A>),
    lines: (usize, usize),
    there: SweepLens,
    home: SweepLens,
)
    requires
        undoes::<A, B, E, F, G>(forward, reverse),
        home.source_len == there.result_len,
        home.result_len == there.source_len,
        home.call_when_empty == there.call_when_empty,
        back.0.len() == source.len(),
        swept::<A, B, E, F>(
            forward,
            stride,
            source,
            between.0,
            between.1,
            lines.0,
            there,
            Ok(()),
        ),
        swept::<B, A, E, G>(
            reverse,
            stride,
            between.1,
            back.0,
            back.1,
            lines.1,
            home,
            Ok(()),
        ),
        there.call_when_empty ==> (source.len() == 0 <==> between.0.len() == 0),
    ensures
        back.1 == source,
{
    let step = stride->0;
    if step <= 1 || (there.call_when_empty && source.len() == 0) {
        assert(line_maps::<A, B, E, F>(forward, source, between.1));
        assert(line_maps::<B, A, E, G>(reverse, between.1, back.1));
    } else {
        let block = there.source_len * step;
        let count = source.len() as int / block;
        assert(source.len() == count * there.source_len * step && 0 <= count && there.source_len
            > 0) by (nonlinear_arith)
            requires
                block == there.source_len * step,
                block != 0,
                there.source_len >= 0,
                step >= 0,
                source.len() as int % block == 0,
                count == source.len() as int / block,
        ;
        assert(between.1.len() == between.0.len());
        let home_block = home.source_len * step;
        assert(home_block > 0) by (nonlinear_arith)
            requires
                home_block == home.source_len * step,
                home_block != 0,
                home.source_len >= 0,
                step >= 0,
        ;
        assert(between.0.len() == count * home_block) by (nonlinear_arith)
            requires
                between.0.len() == count * there.result_len * step,
                home_block == home.source_len * step,
                home.source_len == there.result_len,
        ;
        lemma_fundamental_div_mod_converse(between.1.len() as int, home_block, count, 0);
        let len = there.source_len as nat;
        assert forall|p: int, q: int| 0 <= p < count && 0 <= q < step implies #[trigger] line_at(
            back.1,
            p,
            q,
            len,
            step as int,
        ) == line_at(source, p, q, len, step as int) by {
            let middle = line_at(between.1, p, q, there.result_len as nat, step as int);
            assert(line_maps::<A, B, E, F>(
                forward,
                line_at(source, p, q, len, step as int),
                middle,
            ));
            assert(line_maps::<B, A, E, G>(
                reverse,
                middle,
                line_at(back.1, p, q, len, step as int),
            ));
        }
        lemma_same_lines(back.1, source, count, len, step as int);
        assert(back.1 =~= source);
    }
}

/// Real values that were handed to the complex side and back by kernels of which the second undoes
/// the first are as they were, as far as boundary lines reach.
pub proof fn law_handoff_round_trip<R, E, F: Fn(&[R], usize) -> Result<Vec<Complex<R>>, E>, G: Fn(&[Complex<R>], usize) -> Result<Vec<R>, E>, const N: usize, const M: usize>(
    forward: F,
    reverse: G,
    plan: LocalR2cPlan,
    rows: int,
    stride: int,
    active: (int, int),
    before: SharedStorage<R, N, M>,
    between: SharedStorage<R, N, M>,
    after: SharedStorage<R, N, M>,
)
    requires
        undoes::<R, Complex<R>, E, F, G>(forward, reverse),
        plan.wf(),
        0 <= rows,
        rows % lanes(stride) == 0,
        forward_handed::<R, E, F, N, M>(
            forward,
            plan,
            rows,
            stride,
            active.0,
            before,
            between,
        ),
        reverse_handed::<R, E, G, N, M>(
            reverse,
            plan,
            rows,
            stride,
            active.1,
            between,
            after,
        ),
        before.real_storage_len == real_side(before).storage@.len(),
        between.complex_storage_len == complex_side(between).storage@.len(),
        rows * plan.real_len <= real_side(before).storage@.len(),
        rows * plan.real_len <= real_side(after).storage@.len(),
        rows * plan.complex_len <= complex_side(between).storage@.len(),
    ensures
        forall|i: int|
            0 <= i < rows * plan.real_len ==> #[trigger] real_side(after).storage@[i] == real_side(
                before,
            ).storage@[i],
{
    let step = lanes(stride);
    let groups = rows / step;
    let original = real_side(before).storage@;
    let result = real_side(after).storage@;
    let middle = complex_side(between).storage@;
    let len = plan.real_len as nat;
    assert(forward_converted::<R, E, F>(
        forward,
        original,
        middle,
        groups,
        len,
        plan.complex_len as nat,
        step,
    ));
    assert(reverse_converted::<R, E, G>(
        reverse,
        middle,
        result,
        groups,
        plan.complex_len as nat,
        len,
        step,
    ));
    assert forall|p: int, q: int| 0 <= p < groups && 0 <= q < step implies #[trigger] line_at(
        result,
        p,
        q,
        len,
        step,
    ) == line_at(original, p, q, len, step) by {
        let line = line_at(middle, p, q, plan.complex_len as nat, step);
        assert(line_maps::<R, Complex<R>, E, F>(forward, line_at(original, p, q, len, step), line));
        assert(line_maps::<Complex<R>, R, E, G>(reverse, line, line_at(result, p, q, len, step)));
    }
    lemma_same_lines(result, original, groups, len, step);
    assert(groups * len * step == rows * plan.real_len) by (nonlinear_arith)
        requires
            rows % step == 0,
            groups == rows / step,
            step > 0,
            len == plan.real_len,
    ;
}

/// A stage of a real-to-real or Hartley plan and the same stage with the kernel that undoes it
/// give back the values.
pub proof fn law_r2r_stage_round_trip<T: Copy, F: Fn(&[T], usize) -> Result<Vec<T>, LocalR2rError>, G: Fn(&[T], usize) -> Result<Vec<T>, LocalR2rError>, const N: usize, const M: usize>(
    there: R2rStation<F, N, M>,
    home: R2rStation<G, N, M>,
    source: Seq<T>,
    between: (Seq<T>, Seq<T>),
    back: (Seq<T>, Seq<T>),
    lines: (usize, usize),
)
    requires
        undoes::<T, T, LocalR2rError, F, G>(*there.kernel, *home.kernel),
        home.local == there.local,
        home.pencil.stride_along(home.axis as int) == there.pencil.stride_along(there.axis as int),
        between.0.len() == source.len(),
        back.0.len() == source.len(),
        there.leaves(source, between.0, between.1, lines.0, Ok(())),
        home.leaves(between.1, back.0, back.1, lines.1, Ok(())),
    ensures
        back.1 == source,
{
    if let Some(plan) = there.local.plan() {
        law_sweep_round_trip::<T, T, LocalR2rError, F, G>(
            *there.kernel,
            *home.kernel,
            there.pencil.stride_along(there.axis as int),
            source,
            between,
            back,
            lines,
            r2r_lens(plan, lines.0),
            r2r_lens(plan, lines.1),
        );
    }
}

/// A complex stage of a mixed plan and the same stage with the kernel that undoes it give back the
/// values.
pub proof fn law_mixed_stage_round_trip<T: Copy, F: Fn(&[T], usize) -> Result<Vec<T>, LocalError>, G: Fn(&[T], usize) -> Result<Vec<T>, LocalError>, const N: usize, const M: usize>(
    there: MixedComplexStation<F, N, M>,
    home: MixedComplexStation<G, N, M>,
    source: Seq<T>,
    between: (Seq<T>, Seq<T>),
    back: (Seq<T>, Seq<T>),
    lines: (usize, usize),
)
    requires
        undoes::<T, T, LocalError, F, G>(*there.kernel, *home.kernel),
        home.local == there.local,
        home.pencil.stride_along(home.axis as int) == there.pencil.stride_along(there.axis as int),
        between.0.len() == source.len(),
        back.0.len() == source.len(),
        there.leaves(source, between.0, between.1, lines.0, Ok(())),
        home.leaves(between.1, back.0, back.1, lines.1, Ok(())),
    ensures
        back.1 == source,
{
    let stride = there.pencil.stride_along(there.axis as int);
    match there.local {
        MixedComplexLocal::Identity => {},
        MixedComplexLocal::Fft(plan) => {
            law_sweep_round_trip::<T, T, LocalError, F, G>(
                *there.kernel,
                *home.kernel,
                stride,
                source,
                between,
                back,
                lines,
                complex_lens(plan, lines.0),
                complex_lens(plan, lines.1),
            );
        },
        MixedComplexLocal::R2r(plan) => {
            law_sweep_round_trip::<T, T, LocalError, F, G>(
                *there.kernel,
                *home.kernel,
                stride,
                source,
                between,
                back,
                lines,
                mixed_r2r_lens(plan.plan(), lines.0),
                mixed_r2r_lens(plan.plan(), lines.1),
            );
        },
    }
}

/// The boundary and the boundary back, with kernels of which the second undoes the first, give
/// back the real values where both sides lie alike in memory.
pub proof fn law_crossing_round_trip<R: Copy, F: Fn(&[R], usize) -> Result<Vec<Complex<R>>, LocalR2cError>, G: Fn(&[Complex<R>], usize) -> Result<Vec<R>, LocalR2cError>, const N: usize, const M: usize>(
    there: ForwardCrossing<F, N, M>,
    home: ReverseCrossing<G, N, M>,
    source: Seq<R>,
    between: (Seq<Complex<R>>, Seq<Complex<R>>),
    back: (Seq<R>, Seq<R>),
    lines: (usize, usize),
)
    requires
        undoes::<R, Complex<R>, LocalR2cError, F, G>(*there.kernel, *home.kernel),
        home.plan == there.plan,
        home.pencil.stride_along(home.axis as int) == there.pencil.stride_along(there.axis as int),
        back.0.len() == source.len(),
        there.leaves(source, between.0, between.1, lines.0, Ok(())),
        home.leaves(between.1, back.0, back.1, lines.1, Ok(())),
    ensures
        back.1 == source,
{
    law_sweep_round_trip::<R, Complex<R>, LocalR2cError, F, G>(
        *there.kernel,
        *home.kernel,
        there.pencil.stride_along(there.axis as int),
        source,
        between,
        back,
        lines,
        boundary_forward_lens(there.plan, there.result_line),
        boundary_reverse_lens(home.plan, home.result_line),
    );
}

/// The way back starts where the transform ends, and ends where it starts.
pub proof fn law_states_return(direction: Direction)
    ensures
        direction != Direction::Forward ==> r2c_state_before(direction) == r2c_state_behind(
            Direction::Forward,
        ) && r2c_state_behind(direction) == r2c_state_before(Direction::Forward),
        r2c_state_behind(direction) != R2cState::Poisoned,
        c2c_state_behind(direction) != C2cState::Poisoned,
{
}

/// An interrupted array of a real-to-real or Hartley plan is rejected by every later execution.
pub proof fn law_interrupted_r2r_rejected<T: R2rScalar, const N: usize, const M: usize>(
    core: R2rCore<N, M>,
    direction: Direction,
    array: R2rInPlaceArray<T, N, M>,
    workspace: R2rInPlaceWorkspace<T, N, M>,
)
    requires
        array.core == core.id,
        workspace.core == core.id,
        array.state == R2rState::Poisoned,
    ensures
        r2r_in_place_error(core, direction, array, workspace) == Some(
            FftError::Array(ArrayError::Poisoned),
        ),
{
}

/// An interrupted array of a mixed complex plan is rejected by every later execution.
pub proof fn law_interrupted_mixed_c2c_rejected<R: FftReal, const N: usize, const M: usize>(
    core: MixedC2cCore<N, M>,
    direction: Direction,
    array: MixedC2cInPlaceArray<R, N, M>,
    workspace: MixedC2cInPlaceWorkspace<R, N, M>,
)
    requires
        array.core == core.id,
        workspace.core == core.id,
        array.state == C2cState::Poisoned,
    ensures
        mixed_c2c_in_place_error(core, direction, array, workspace) == Some(
            FftError::Array(ArrayError::Poisoned),
        ),
{
}

/// An interrupted array of a real-to-complex plan is rejected by every later execution, and
/// neither side of it can be seen.
pub proof fn law_interrupted_r2c_rejected<R: FftReal, const N: usize, const M: usize>(
    core: TransformPlanCore<N, M>,
    direction: Direction,
    array: R2cInPlaceArray<R, N, M>,
    workspace: R2cInPlaceWorkspace<R, N, M>,
    capacity: usize,
)
    requires
        array.core == core.id,
        workspace.core == core.id,
        array.state == R2cState::Poisoned,
    ensures
        r2c_in_place_error(core, direction, array, workspace, capacity) == Some(
            FftError::Array(ArrayError::Poisoned),
        ),
        real_view_error(array.state, array.shared) == Some(FftError::Array(ArrayError::Poisoned)),
        complex_view_error(array.state, array.shared) == Some(
            FftError::Array(ArrayError::Poisoned),
        ),
{
}

/// An interrupted array of a mixed real-to-complex plan is rejected by every later execution, and
/// neither side of it can be seen.
pub proof fn law_interrupted_mixed_r2c_rejected<R: FftReal, const N: usize, const M: usize>(
    core: MixedR2cCore<N, M>,
    direction: Direction,
    array: MixedR2cInPlaceArray<R, N, M>,
    workspace: MixedR2cInPlaceWorkspace<R, N, M>,
    capacity: usize,
)
    requires
        array.core == core.id,
        workspace.core == core.id,
        array.state == R2cState::Poisoned,
    ensures
        mixed_r2c_in_place_error(core, direction, array, workspace, capacity) == Some(
            FftError::Array(ArrayError::Poisoned),
        ),
        real_view_error(array.state, array.shared) == Some(FftError::Array(ArrayError::Poisoned)),
        complex_view_error(array.state, array.shared) == Some(
            FftError::Array(ArrayError::Poisoned),
        ),
{
}

} // verus!
