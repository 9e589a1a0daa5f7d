//! What tolerances, timings and requests rest on.

use vstd::arithmetic::power2::lemma2_to64;
use vstd::arithmetic::power2::pow2;
use vstd::prelude::*;

use crate::boundary::allowances_of;
use crate::boundary::is_bit_length;
use crate::boundary::is_depth;
use crate::boundary::is_terms_depth;
use crate::boundary::selected_extents;
use crate::boundary::sum_of;
use crate::boundary::terms_of;
use crate::boundary::DepthTerm;
use crate::clock::measured;
use crate::clock::spec_elapsed;
use crate::error::BackendInitError;
use crate::error::FftError;
use crate::error::LocalC2cError;
use crate::error::LocalR2cError;
use crate::error::LocalR2rError;
use crate::layout::AxisSelection;
use crate::layout::ExtraShape;
use crate::layout::FourierDirection;
use crate::layout::Pencil;
use crate::layout::TransposeMethod;
use crate::local::AxisR2rKind;
use crate::local::AxisTransform;
use crate::local::BackendChoice;
use crate::local::LocalC2cPlan;
use crate::local::LocalR2cPlan;
use crate::local::LocalR2rPlan;
use crate::local::MixedComplexLocal;
use crate::local::MixedR2cStageLocal;
use crate::local::MixedR2rLocal;
use crate::local::R2rKind;
use crate::mixed_build::MixedAsk;
use crate::mixed_build::MixedFacts;
use crate::mixed_c2c::MixedC2cCore;
use crate::mixed_c2c_build::mixed_c2c_built;
use crate::mixed_c2c_build::mixed_c2c_built_in;
use crate::mixed_c2c_build::signs_given;
use crate::mixed_prepare::Planners;
use crate::mixed_r2c::MixedR2cCore;
use crate::mixed_r2c_build::mixed_r2c_built;
use crate::mixed_r2c_build::mixed_r2c_built_in;
use crate::prepare::RouteCandidate;
use crate::prepare::RoutePair;
use crate::r2c::TransformPlanCore;
use crate::r2c_build::depth_of;
use crate::r2c_build::r2c_built;
use crate::r2c_build::r2c_built_in;
use crate::r2c_build::r2c_routed;
use crate::r2c_build::r2c_stages_hold;
use crate::r2c_build::R2cFacts;
use crate::r2c_build::R2cPlanners;
use crate::r2r::R2rCore;
use crate::r2r_build::kinds_given;
use crate::r2r_build::r2r_built;
use crate::r2r_build::r2r_built_in;
use crate::r2r_build::R2rFacts;
use crate::registry::Stage;
use crate::request::PlanRequest;
use crate::rooms::Rooms;
use crate::scalar::Complex;
use crate::schedule::Step;
use crate::timing::TransformTiming;
use crate::transition::TransitionPlan;
use crate::world::input_given;
use crate::world::World;

verus! {

/// The axes below `bound` that are selected, in order.
pub open spec fn chosen_axes(mask: Seq<bool>, bound: nat) -> Seq<int> {
    Seq::new(bound, |axis: int| axis).filter(|axis: int| mask[axis])
}

proof fn lemma_chosen_extents<const N: usize>(shape: Seq<usize>, selection: AxisSelection<N>, bound: nat)
    requires
        bound <= N,
    ensures
        selected_extents(shape, selection, bound) == chosen_axes(selection.mask@, bound).map_values(
            |axis: int| shape[axis],
        ),
    decreases bound,
{
    let keep = |axis: int| selection.mask@[axis];
    let all = Seq::new(bound, |axis: int| axis);
    let extents = |axis: int| shape[axis];
    reveal(Seq::filter);
    if bound == 0 {
        assert(selected_extents(shape, selection, 0) =~= chosen_axes(selection.mask@, 0).map_values(extents));
    } else {
        let shorter = (bound - 1) as nat;
        lemma_chosen_extents(shape, selection, shorter);
        assert(all.drop_last() =~= Seq::new(shorter, |axis: int| axis));
        let front = all.drop_last().filter(keep);
        assert(front == chosen_axes(selection.mask@, shorter));
        if selection.mask@[bound - 1] {
            assert(all.filter(keep) == front.push(all.last()));
            assert(front.push(bound - 1).map_values(extents) =~= front.map_values(extents).push(
                shape[bound - 1],
            ));
        } else {
            assert(all.filter(keep) == front);
        }
        assert(chosen_axes(selection.mask@, bound) == all.filter(keep));
    }
}

/// The tolerance of a real-to-complex plan that was built is scaled by the extents of the
/// selected axes in front of the reduced one, each once and in order, and grows with the depth
/// of their transforms: one more than the sum, over these axes, of the smallest exponent whose
/// power of two is no less than the extent.
pub proof fn law_r2c_tolerance_by_extents<H: Fn([u64; 5]) -> bool, D: Fn(Option<Vec<u64>>, Option<usize>) -> Result<Vec<u64>, FftError>, A: Fn(bool) -> bool, P: Fn([usize; N]) -> Result<Pencil<N, M>, FftError>, Q: Fn(Pencil<N, M>, [usize; N], bool) -> Result<RouteCandidate<N, M>, FftError>, T: Fn(&Vec<Stage<N, M>>, &Vec<usize>, &ExtraShape, TransposeMethod, usize) -> Result<TransitionPlan, FftError>, X: Fn(usize) -> Result<LocalC2cPlan, LocalC2cError>, Y: Fn(usize) -> Result<LocalR2cPlan, LocalR2cError>, E: Fn(u64, &Vec<usize>) -> Result<u64, FftError>, const N: usize, const M: usize>(
    world: World<H, D, A, P, Q, T>,
    planners: R2cPlanners<X, Y, E>,
    facts: R2cFacts<M>,
    request: PlanRequest<AxisSelection<N>, N, M>,
    core: TransformPlanCore<N, M>,
) -> (found: (u64, Vec<usize>, Seq<nat>))
    requires
        r2c_built(world, planners, facts, request, core),
        core.wf(),
    ensures
        planners.threshold.ensures((found.0, &found.1), Ok(core.raw_absolute_threshold)),
        found.1@ == chosen_axes(
            request.transform.mask@,
            (N - 1 - core.boundary) as nat,
        ).map_values(|axis: int| request.global_shape@[axis]),
        found.2.len() == N - 1 - core.boundary,
        forall|axis: int|
            0 <= axis < N - 1 - core.boundary ==> exponent_fits(
                if request.transform.mask@[axis] {
                    request.global_shape@[axis] as int
                } else {
                    0
                },
                #[trigger] found.2[axis],
            ),
        found.0 == 1 + total(found.2),
{
    let rooms = choose|rooms: Rooms<N, M>| #[trigger]
        r2c_built_in(world, planners, facts, request, rooms, core);
    assert(r2c_built_in(world, planners, facts, request, rooms, core));
    let axis = N - 1 - core.boundary;
    let routes = choose|routes: RoutePair<N, M>| #[trigger] r2c_routed(world, request, axis, routes)
        && r2c_stages_hold(
        planners,
        routes,
        request.transform,
        core.boundary as int,
        core.stages@,
        core.locals@,
    );
    assert(axis >= 0);
    let (depth, extents) = choose|depth: u64, extents: &Vec<usize>|
        {
            &&& #[trigger] planners.threshold.ensures((depth, extents), Ok(core.raw_absolute_threshold))
            &&& depth_of(request.global_shape@, request.transform, axis as nat, depth)
            &&& extents@ == selected_extents(request.global_shape@, request.transform, axis as nat)
        };
    let exponents = choose|exponents: Seq<nat>| #[trigger]
        is_depth(request.global_shape@, request.transform, axis as nat, exponents, depth as int);
    lemma_chosen_extents(request.global_shape@, request.transform, axis as nat);
    assert forall|other: int| 0 <= other < axis implies exponent_fits(
        if request.transform.mask@[other] {
            request.global_shape@[other] as int
        } else {
            0
        },
        #[trigger] exponents[other],
    ) by {
        lemma_exponent(request.global_shape@[other] as int, exponents[other]);
    }
    lemma_total(exponents);
    (depth, *extents, exponents)
}

/// The smallest exponent whose power of two is no less than `len`.
pub open spec fn exponent_fits(len: int, exponent: nat) -> bool {
    &&& len <= pow2(exponent)
    &&& exponent > 0 ==> pow2((exponent - 1) as nat) < len
}

proof fn lemma_exponent(len: int, exponent: nat)
    ensures
        len > 1 && is_bit_length(len - 1, exponent) ==> exponent_fits(len, exponent),
        len <= 1 && exponent == 0 ==> exponent_fits(len, exponent),
        exponent == 0 ==> exponent_fits(0, exponent),
{
    lemma2_to64();
}

/// The sum of some numbers.
pub open spec fn total(values: Seq<nat>) -> nat {
    values.fold_left(0nat, |sum: nat, value: nat| sum + value)
}

proof fn lemma_total(values: Seq<nat>)
    ensures
        sum_of(values) == total(values),
    decreases values.len(),
{
    reveal_with_fuel(Seq::fold_left, 2);
    if values.len() > 0 {
        lemma_total(values.drop_last());
    }
}

/// What a stage behind the boundary of a mixed plan adds to the tolerance: a Fourier kernel its
/// length, a real-to-real kernel the length it is embedded in, its normalization factor and two
/// levels more.
pub open spec fn weighs(local: MixedR2cStageLocal, term: DepthTerm) -> bool {
    match local {
        MixedR2cStageLocal::Complex(MixedComplexLocal::Fft(plan)) => term == (DepthTerm {
            native_len: plan.line_len,
            factor: plan.line_len,
            allowance: 0,
        }),
        MixedR2cStageLocal::Complex(MixedComplexLocal::R2r(MixedR2rLocal::Transform(plan))) => term == (DepthTerm {
            native_len: plan.embedding_len,
            factor: plan.normalization_factor,
            allowance: 2,
        }),
        MixedR2cStageLocal::Complex(MixedComplexLocal::R2r(MixedR2rLocal::Hartley(plan))) => term == (DepthTerm {
            native_len: plan.embedding_len,
            factor: plan.normalization_factor,
            allowance: 2,
        }),
        _ => false,
    }
}

/// The stages that have a complex kernel, in order.
pub open spec fn weighed(locals: Seq<MixedR2cStageLocal>) -> Seq<MixedR2cStageLocal> {
    locals.filter(|local: MixedR2cStageLocal| local is Complex && !(local->Complex_0 is Identity))
}

/// Every stage behind the boundary of a mixed plan that has a complex kernel adds one term to the
/// tolerance, in order, and no other stage does.
pub proof fn law_terms_weigh_stages(locals: Seq<MixedR2cStageLocal>)
    ensures
        terms_of(locals).len() == weighed(locals).len(),
        forall|i: int|
            0 <= i < weighed(locals).len() ==> weighs(#[trigger] weighed(locals)[i], terms_of(locals)[i]),
    decreases locals.len(),
{
    reveal(Seq::filter);
    let keep = |local: MixedR2cStageLocal| local is Complex && !(local->Complex_0 is Identity);
    if locals.len() > 0 {
        law_terms_weigh_stages(locals.drop_last());
        let front = locals.drop_last().filter(keep);
        assert(front == weighed(locals.drop_last()));
        if keep(locals.last()) {
            assert(weighed(locals) == front.push(locals.last()));
        } else {
            assert(weighed(locals) == front);
        }
    }
}

/// The tolerance of a mixed real-to-complex plan that was built comes from the terms of the stages
/// behind its boundary.
pub proof fn law_mixed_r2c_tolerance_by_stages<H: Fn([u64; 5]) -> bool, D: Fn(Option<Vec<u64>>, Option<usize>) -> Result<Vec<u64>, FftError>, A: Fn(bool) -> bool, P: Fn([usize; N]) -> Result<Pencil<N, M>, FftError>, Q: Fn(Pencil<N, M>, [usize; N], bool) -> Result<RouteCandidate<N, M>, FftError>, T: Fn(&Vec<Stage<N, M>>, &Vec<usize>, &ExtraShape, TransposeMethod, usize) -> Result<TransitionPlan, FftError>, C: Fn(BackendChoice, usize, bool) -> Result<LocalC2cPlan, BackendInitError<LocalC2cError>>, K: Fn(BackendChoice, AxisR2rKind, usize) -> Result<LocalR2rPlan, BackendInitError<LocalR2rError>>, B: Fn(BackendChoice, usize) -> Result<LocalR2cPlan, BackendInitError<LocalR2cError>>, E: Fn(&Vec<DepthTerm>) -> Result<u64, FftError>, const N: usize, const M: usize>(
    world: World<H, D, A, P, Q, T>,
    planners: Planners<C, K, B>,
    threshold: E,
    facts: MixedFacts<M>,
    request: PlanRequest<MixedAsk<N>, N, M>,
    core: MixedR2cCore<N, M>,
) -> (terms: Vec<DepthTerm>)
    requires
        mixed_r2c_built(world, planners, threshold, facts, request, core),
        core.wf(),
    ensures
        threshold.ensures((&terms,), Ok(core.raw_absolute_threshold)),
        ({
            let behind = weighed(
                Seq::new((N - 1 - core.boundary) as nat, |i: int| core.locals@[core.boundary + 1 + i]),
            );
            &&& terms@.len() == behind.len()
            &&& forall|i: int| 0 <= i < behind.len() ==> weighs(#[trigger] behind[i], terms@[i])
        }),
{
    let rooms = choose|rooms: Rooms<N, M>| #[trigger]
        mixed_r2c_built_in(world, planners, threshold, facts, request, rooms, core);
    assert(mixed_r2c_built_in(world, planners, threshold, facts, request, rooms, core));
    let terms = choose|terms: &Vec<DepthTerm>|
        {
            &&& #[trigger] threshold.ensures((terms,), Ok(core.raw_absolute_threshold))
            &&& terms@ == terms_of(core.locals@.skip(core.boundary + 1))
        };
    assert(core.locals@.skip(core.boundary + 1) =~= Seq::new(
        (N - 1 - core.boundary) as nat,
        |i: int| core.locals@[core.boundary + 1 + i],
    ));
    law_terms_weigh_stages(core.locals@.skip(core.boundary + 1));
    *terms
}

/// The depth of the stages behind the boundary of a mixed plan: one, and for each term the smallest
/// exponent whose power of two is no less than its length, and its extra levels.
pub proof fn law_mixed_depth(terms: Seq<DepthTerm>, exponents: Seq<nat>, depth: int)
    requires
        is_terms_depth(terms, exponents, depth),
    ensures
        exponents.len() == terms.len(),
        forall|i: int|
            0 <= i < terms.len() ==> exponent_fits(terms[i].native_len as int, #[trigger] exponents[i]),
        depth == 1 + total(exponents) + total(terms.map_values(|term: DepthTerm| term.allowance as nat)),
{
    assert forall|i: int| 0 <= i < terms.len() implies exponent_fits(
        terms[i].native_len as int,
        #[trigger] exponents[i],
    ) by {
        lemma_exponent(terms[i].native_len as int, exponents[i]);
    }
    lemma_total(exponents);
    lemma_allowances(terms);
}

proof fn lemma_allowances(terms: Seq<DepthTerm>)
    ensures
        allowances_of(terms) == total(terms.map_values(|term: DepthTerm| term.allowance as nat)),
    decreases terms.len(),
{
    reveal_with_fuel(Seq::fold_left, 2);
    let values = terms.map_values(|term: DepthTerm| term.allowance as nat);
    if terms.len() > 0 {
        lemma_allowances(terms.drop_last());
        assert(values.drop_last() =~= terms.drop_last().map_values(|term: DepthTerm| term.allowance as nat));
    }
}

/// A step counts toward the timing of its own stage alone: an exchange as time between processes, a
/// kernel as time in kernels and as one call more; and the stage's total is the sum of both times.
pub proof fn law_time_recorded<const N: usize>(timing: TransformTiming<N>, step: Step, spent: u64, other: int)
    requires
        0 <= other < N,
    ensures
        timing.recorded(step, spent).len() == N,
        step.timed is None || step.timed->0 != other ==> timing.recorded(step, spent)[other]
            == timing.stages@[other],
        step.timed matches Some(stage) && stage == other ==> {
            let before = timing.stages@[other];
            let after = timing.recorded(step, spent)[other];
            &&& step.work is Exchange ==> {
                &&& after.fft == before.fft
                &&& after.fft_calls == before.fft_calls
                &&& before.transpose + spent <= u64::MAX ==> after.transpose == before.transpose + spent
                &&& before.transpose + spent > u64::MAX ==> after.transpose == u64::MAX
            }
            &&& !(step.work is Exchange) ==> {
                &&& after.transpose == before.transpose
                &&& before.fft_calls < u64::MAX ==> after.fft_calls == before.fft_calls + 1
                &&& before.fft + spent <= u64::MAX ==> after.fft == before.fft + spent
                &&& before.fft + spent > u64::MAX ==> after.fft == u64::MAX
            }
            &&& after.fft + after.transpose <= u64::MAX ==> after.total == after.fft + after.transpose
            &&& after.fft + after.transpose > u64::MAX ==> after.total == u64::MAX
        },
{
}

/// What was measured lies between two readings of the clock, and is nothing where the clock
/// went back.
pub proof fn law_measured<K: Fn() -> u64>(now: K, spent: u64) -> (readings: (u64, u64))
    requires
        measured(now, spent),
    ensures
        now.ensures((), readings.0),
        now.ensures((), readings.1),
        readings.1 >= readings.0 ==> spent == readings.1 - readings.0,
        readings.1 < readings.0 ==> spent == 0,
{
    choose|start: u64, end: u64| #[trigger]
        now.ensures((), start) && #[trigger] now.ensures((), end) && spent == spec_elapsed(start, end)
}

/// A real-to-real plan that was built has no cosine transform of the first kind along an axis
/// of one element.
pub proof fn law_r2r_kinds_allowed<H: Fn([u64; 5]) -> bool, D: Fn(Option<Vec<u64>>, Option<usize>) -> Result<Vec<u64>, FftError>, A: Fn(bool) -> bool, P: Fn([usize; N]) -> Result<Pencil<N, M>, FftError>, Q: Fn(Pencil<N, M>, [usize; N], bool) -> Result<RouteCandidate<N, M>, FftError>, T: Fn(&Vec<Stage<N, M>>, &Vec<usize>, &ExtraShape, TransposeMethod, usize) -> Result<TransitionPlan, FftError>, K: Fn(AxisR2rKind, usize) -> Result<LocalR2rPlan, LocalR2rError>, const N: usize, const M: usize>(
    world: World<H, D, A, P, Q, T>,
    planner: K,
    facts: R2rFacts<N, M>,
    request: PlanRequest<[Option<R2rKind>; N], N, M>,
    core: R2rCore<N, M>,
    axis: int,
)
    requires
        r2r_built(world, planner, facts, request, core),
        0 <= axis < N,
        request.global_shape@[axis] == 1,
    ensures
        request.transform@[axis] != Some(R2rKind::DctI),
{
    let rooms = choose|rooms: Rooms<N, M>| #[trigger]
        r2r_built_in(world, planner, facts, request, rooms, core);
    assert(r2r_built_in(world, planner, facts, request, rooms, core));
    assert(kinds_given(request, Ok(())));
    if request.transform@[axis] == Some(R2rKind::DctI) {
        assert(request.transform@[axis] == Some(R2rKind::DctI));
    }
}

/// Only Fourier axes of a mixed complex plan that was built have the backward sign.
pub proof fn law_mixed_c2c_signs_allowed<H: Fn([u64; 5]) -> bool, D: Fn(Option<Vec<u64>>, Option<usize>) -> Result<Vec<u64>, FftError>, A: Fn(bool) -> bool, P: Fn([usize; N]) -> Result<Pencil<N, M>, FftError>, Q: Fn(Pencil<N, M>, [usize; N], bool) -> Result<RouteCandidate<N, M>, FftError>, T: Fn(&Vec<Stage<N, M>>, &Vec<usize>, &ExtraShape, TransposeMethod, usize) -> Result<TransitionPlan, FftError>, C: Fn(BackendChoice, usize, bool) -> Result<LocalC2cPlan, BackendInitError<LocalC2cError>>, K: Fn(BackendChoice, AxisR2rKind, usize) -> Result<LocalR2rPlan, BackendInitError<LocalR2rError>>, B: Fn(BackendChoice, usize) -> Result<LocalR2cPlan, BackendInitError<LocalR2cError>>, const N: usize, const M: usize>(
    world: World<H, D, A, P, Q, T>,
    planners: Planners<C, K, B>,
    facts: MixedFacts<M>,
    request: PlanRequest<MixedAsk<N>, N, M>,
    core: MixedC2cCore<N, M>,
    axis: int,
)
    requires
        mixed_c2c_built(world, planners, facts, request, core),
        0 <= axis < N,
        request.transform.graph.directions.0@[axis] == FourierDirection::Backward,
    ensures
        request.transform.graph.transforms@[axis] == AxisTransform::Fft,
{
    let rooms = choose|rooms: Rooms<N, M>| #[trigger]
        mixed_c2c_built_in(world, planners, facts, request, rooms, core);
    assert(mixed_c2c_built_in(world, planners, facts, request, rooms, core));
    assert(signs_given(request.transform.graph, Ok(())));
}

/// Only Fourier axes of a mixed real-to-complex plan that was built have the backward sign.
pub proof fn law_mixed_r2c_signs_allowed<H: Fn([u64; 5]) -> bool, D: Fn(Option<Vec<u64>>, Option<usize>) -> Result<Vec<u64>, FftError>, A: Fn(bool) -> bool, P: Fn([usize; N]) -> Result<Pencil<N, M>, FftError>, Q: Fn(Pencil<N, M>, [usize; N], bool) -> Result<RouteCandidate<N, M>, FftError>, T: Fn(&Vec<Stage<N, M>>, &Vec<usize>, &ExtraShape, TransposeMethod, usize) -> Result<TransitionPlan, FftError>, C: Fn(BackendChoice, usize, bool) -> Result<LocalC2cPlan, BackendInitError<LocalC2cError>>, K: Fn(BackendChoice, AxisR2rKind, usize) -> Result<LocalR2rPlan, BackendInitError<LocalR2rError>>, B: Fn(BackendChoice, usize) -> Result<LocalR2cPlan, BackendInitError<LocalR2cError>>, E: Fn(&Vec<DepthTerm>) -> Result<u64, FftError>, const N: usize, const M: usize>(
    world: World<H, D, A, P, Q, T>,
    planners: Planners<C, K, B>,
    threshold: E,
    facts: MixedFacts<M>,
    request: PlanRequest<MixedAsk<N>, N, M>,
    core: MixedR2cCore<N, M>,
    axis: int,
)
    requires
        mixed_r2c_built(world, planners, threshold, facts, request, core),
        0 <= axis < N,
        request.transform.graph.directions.0@[axis] == FourierDirection::Backward,
    ensures
        request.transform.graph.transforms@[axis] == AxisTransform::Fft,
{
    let rooms = choose|rooms: Rooms<N, M>| #[trigger]
        mixed_r2c_built_in(world, planners, threshold, facts, request, rooms, core);
    assert(mixed_r2c_built_in(world, planners, threshold, facts, request, rooms, core));
    assert(signs_given(request.transform.graph, Ok(())));
}

/// A layout that a plan starts from has the extents that were asked for, its axes lie in memory in
/// their order, and the first of them are distributed.
pub proof fn law_inputs_are_canonical<K, P: Fn([usize; N]) -> Result<Pencil<N, M>, FftError>, const N: usize, const M: usize>(
    question: P,
    request: PlanRequest<K, N, M>,
    outcome: Result<Pencil<N, M>, FftError>,
)
    requires
        input_given(question, request, outcome),
    ensures
        outcome matches Ok(pencil) ==> {
            &&& pencil.global_shape@ == request.global_shape@
            &&& forall|p: int| 0 <= p < N ==> #[trigger] pencil.memory_order@[p] == p
            &&& forall|d: int| 0 <= d < M ==> #[trigger] pencil.decomposition@[d] == d
            &&& request.input matches Some(given) ==> pencil == given
            &&& request.input is None ==> question.ensures((request.global_shape,), Ok(pencil))
        },
        outcome matches Err(error) ==> request.input matches Some(given) ==> error
            == FftError::InputLayoutMismatch && !({
            &&& given.global_shape@ == request.global_shape@
            &&& forall|p: int| 0 <= p < N ==> #[trigger] given.memory_order@[p] == p
            &&& forall|d: int| 0 <= d < M ==> #[trigger] given.decomposition@[d] == d
        }),
{
}

} // verus!
