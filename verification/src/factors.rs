//! What a plan multiplies values by on the way there and back without normalization.

use vstd::prelude::*;

use crate::asked::law_dht_kernels_as_asked;
use crate::asked::law_mixed_c2c_kernels_as_asked;
use crate::asked::law_mixed_r2c_kernels_as_asked;
use crate::asked::law_r2r_kernels_as_asked;
use crate::boundary::DepthTerm;
use crate::dht_plan::dht_plan_facts;
use crate::dht_plan::without_selection;
use crate::error::BackendInitError;
use crate::error::FftError;
use crate::error::LocalC2cError;
use crate::error::LocalR2cError;
use crate::error::LocalR2rError;
use crate::fits::planners_measure;
use crate::layout::AxisSelection;
use crate::layout::ExtraShape;
use crate::layout::Pencil;
use crate::layout::TransposeMethod;
use crate::local::AxisR2rKind;
use crate::local::AxisTransform;
use crate::local::BackendChoice;
use crate::local::LocalC2cPlan;
use crate::local::LocalR2cPlan;
use crate::local::LocalR2rPlan;
use crate::local::R2rKind;
use crate::mixed_build::MixedAsk;
use crate::mixed_build::MixedFacts;
use crate::mixed_c2c::MixedC2cCore;
use crate::mixed_c2c_build::mixed_c2c_built;
use crate::mixed_prepare::Planners;
use crate::mixed_r2c::MixedR2cCore;
use crate::mixed_r2c_build::mixed_r2c_built;
use crate::prepare::RouteCandidate;
use crate::r2r::R2rCore;
use crate::r2r_build::r2r_built;
use crate::r2r_build::r2r_built_in;
use crate::r2r_build::R2rFacts;
use crate::r2r_plan::r2r_plan_facts;
use crate::registry::Stage;
use crate::request::PlanRequest;
use crate::rooms::Rooms;
use crate::scalar::R2rScalar;
use crate::scaled::gains_from;
use crate::scaled_mixed_c2c::mixed_c2c_gains;
use crate::scaled_mixed_r2c::mixed_r2c_gains;
use crate::scaled_r2r::r2r_gains;
use crate::transition::TransitionPlan;
use crate::world::World;

verus! {

/// The product of the factors of the first `count` axes.
pub open spec fn factors(factor: spec_fn(int) -> int, count: int) -> int
    decreases count,
{
    if count <= 0 {
        1
    } else {
        factors(factor, count - 1) * factor(count - 1)
    }
}

proof fn lemma_factors_of_axes(gains: Seq<int>, factor: spec_fn(int) -> int, first: int)
    requires
        0 <= first <= gains.len(),
        forall|i: int| 0 <= i < gains.len() ==> #[trigger] gains[i] == factor(gains.len() - 1 - i),
    ensures
        gains_from(gains, first) == factors(factor, gains.len() - first),
    decreases gains.len() - first,
{
    if first < gains.len() {
        lemma_factors_of_axes(gains, factor, first + 1);
    }
}

/// The values of a real-to-real plan that was built come back without normalization times the
/// product, over the axes that have a kind, of the normalization factor of that kind for the
/// extent of the axis.
pub proof fn law_r2r_gains_are_factors<V: R2rScalar, H: Fn([u64; 5]) -> bool, D: Fn(Option<Vec<u64>>, Option<usize>) -> Result<Vec<u64>, FftError>, A: Fn(bool) -> bool, P: Fn([usize; N]) -> Result<Pencil<N, M>, FftError>, Q: Fn(Pencil<N, M>, [usize; N], bool) -> Result<RouteCandidate<N, M>, FftError>, T: Fn(&Vec<Stage<N, M>>, &Vec<usize>, &ExtraShape, TransposeMethod, usize) -> Result<TransitionPlan, FftError>, K: Fn(AxisR2rKind, usize) -> Result<LocalR2rPlan, LocalR2rError>, const N: usize, const M: usize>(
    world: World<H, D, A, P, Q, T>,
    planner: K,
    facts: R2rFacts<N, M>,
    id: u64,
    process_grid: [usize; M],
    request: PlanRequest<[Option<R2rKind>; N], N, M>,
    core: R2rCore<N, M>,
    normalization: spec_fn(AxisR2rKind, usize) -> int,
)
    requires
        forall|kind: AxisR2rKind, len: usize, plan: LocalR2rPlan| #[trigger]
            planner.ensures((kind, len), Ok(plan)) ==> plan.normalization_factor == normalization(kind, len),
        r2r_plan_facts::<V, N, M>(facts, id, process_grid, request.transform),
        r2r_built(world, planner, facts, request, core),
    ensures
        gains_from(r2r_gains(core), 0) == factors(
            |axis: int|
                match request.transform@[axis] {
                    Some(kind) => normalization(AxisR2rKind::Fftw(kind), request.global_shape@[axis]),
                    None => 1,
                },
            N as int,
        ),
{
    let factor = |axis: int|
        match request.transform@[axis] {
            Some(kind) => normalization(AxisR2rKind::Fftw(kind), request.global_shape@[axis]),
            None => 1,
        };
    let gains = r2r_gains(core);
    if N > 0 {
        law_r2r_kernels_as_asked::<V, H, D, A, P, Q, T, K, N, M>(
            world,
            planner,
            facts,
            id,
            process_grid,
            request,
            core,
            0,
        );
    } else {
        let rooms = choose|rooms: Rooms<N, M>| #[trigger]
            r2r_built_in(world, planner, facts, request, rooms, core);
        assert(r2r_built_in(world, planner, facts, request, rooms, core));
    }
    assert forall|i: int| 0 <= i < gains.len() implies #[trigger] gains[i] == factor(gains.len() - 1 - i) by {
        law_r2r_kernels_as_asked::<V, H, D, A, P, Q, T, K, N, M>(
            world,
            planner,
            facts,
            id,
            process_grid,
            request,
            core,
            N - 1 - i,
        );
    }
    lemma_factors_of_axes(gains, factor, 0);
}

/// The values of a Hartley plan that was built come back without normalization times the product of
/// the normalization factors of the selected axes.
pub proof fn law_dht_gains_are_factors<V: R2rScalar, H: Fn([u64; 5]) -> bool, D: Fn(Option<Vec<u64>>, Option<usize>) -> Result<Vec<u64>, FftError>, A: Fn(bool) -> bool, P: Fn([usize; N]) -> Result<Pencil<N, M>, FftError>, Q: Fn(Pencil<N, M>, [usize; N], bool) -> Result<RouteCandidate<N, M>, FftError>, T: Fn(&Vec<Stage<N, M>>, &Vec<usize>, &ExtraShape, TransposeMethod, usize) -> Result<TransitionPlan, FftError>, K: Fn(AxisR2rKind, usize) -> Result<LocalR2rPlan, LocalR2rError>, const N: usize, const M: usize>(
    world: World<H, D, A, P, Q, T>,
    planner: K,
    facts: R2rFacts<N, M>,
    id: u64,
    process_grid: [usize; M],
    request: PlanRequest<AxisSelection<N>, N, M>,
    plain: PlanRequest<[Option<R2rKind>; N], N, M>,
    core: R2rCore<N, M>,
    normalization: spec_fn(AxisR2rKind, usize) -> int,
)
    requires
        N > 0,
        forall|kind: AxisR2rKind, len: usize, plan: LocalR2rPlan| #[trigger]
            planner.ensures((kind, len), Ok(plan)) ==> plan.normalization_factor == normalization(kind, len),
        dht_plan_facts::<V, N, M>(facts, id, process_grid, request.transform),
        without_selection(request, plain),
        r2r_built(world, planner, facts, plain, core),
    ensures
        gains_from(r2r_gains(core), 0) == factors(
            |axis: int|
                if request.transform.mask@[axis] {
                    normalization(AxisR2rKind::Dht, request.global_shape@[axis])
                } else {
                    1
                },
            N as int,
        ),
{
    let factor = |axis: int|
        if request.transform.mask@[axis] {
            normalization(AxisR2rKind::Dht, request.global_shape@[axis])
        } else {
            1
        };
    let gains = r2r_gains(core);
    law_dht_kernels_as_asked::<V, H, D, A, P, Q, T, K, N, M>(
        world,
        planner,
        facts,
        id,
        process_grid,
        request,
        plain,
        core,
        0,
    );
    assert forall|i: int| 0 <= i < gains.len() implies #[trigger] gains[i] == factor(gains.len() - 1 - i) by {
        law_dht_kernels_as_asked::<V, H, D, A, P, Q, T, K, N, M>(
            world,
            planner,
            facts,
            id,
            process_grid,
            request,
            plain,
            core,
            N - 1 - i,
        );
    }
    lemma_factors_of_axes(gains, factor, 0);
}

/// What an axis of a mixed plan multiplies the values by on the way there and back without
/// normalization.
pub open spec fn mixed_factor(
    transform: AxisTransform,
    len: usize,
    normalization: spec_fn(AxisR2rKind, usize) -> int,
) -> int {
    match transform {
        AxisTransform::Unchanged => 1,
        AxisTransform::Fft => len as int,
        AxisTransform::Rfft => len as int,
        AxisTransform::R2r(kind) => normalization(kind, len),
    }
}

/// The values of a mixed complex plan that was built come back without normalization times the
/// product, over its axes, of the extent of a Fourier axis and of the normalization factor of a
/// real-to-real axis.
pub proof fn law_mixed_c2c_gains_are_factors<H: Fn([u64; 5]) -> bool, D: Fn(Option<Vec<u64>>, Option<usize>) -> Result<Vec<u64>, FftError>, A: Fn(bool) -> bool, P: Fn([usize; N]) -> Result<Pencil<N, M>, FftError>, Q: Fn(Pencil<N, M>, [usize; N], bool) -> Result<RouteCandidate<N, M>, FftError>, T: Fn(&Vec<Stage<N, M>>, &Vec<usize>, &ExtraShape, TransposeMethod, usize) -> Result<TransitionPlan, FftError>, C: Fn(BackendChoice, usize, bool) -> Result<LocalC2cPlan, BackendInitError<LocalC2cError>>, K: Fn(BackendChoice, AxisR2rKind, usize) -> Result<LocalR2rPlan, BackendInitError<LocalR2rError>>, B: Fn(BackendChoice, usize) -> Result<LocalR2cPlan, BackendInitError<LocalR2cError>>, const N: usize, const M: usize>(
    world: World<H, D, A, P, Q, T>,
    planners: Planners<C, K, B>,
    facts: MixedFacts<M>,
    request: PlanRequest<MixedAsk<N>, N, M>,
    core: MixedC2cCore<N, M>,
    normalization: spec_fn(AxisR2rKind, usize) -> int,
)
    requires
        N > 0,
        planners_measure(planners),
        forall|backend: BackendChoice, kind: AxisR2rKind, len: usize, plan: LocalR2rPlan| #[trigger]
            planners.r2r.ensures((backend, kind, len), Ok(plan)) ==> plan.normalization_factor
                == normalization(kind, len),
        mixed_c2c_built(world, planners, facts, request, core),
    ensures
        gains_from(mixed_c2c_gains(core), 0) == factors(
            |axis: int|
                mixed_factor(
                    request.transform.graph.transforms@[axis],
                    request.global_shape@[axis],
                    normalization,
                ),
            N as int,
        ),
{
    let factor = |axis: int|
        mixed_factor(
            request.transform.graph.transforms@[axis],
            request.global_shape@[axis],
            normalization,
        );
    let gains = mixed_c2c_gains(core);
    law_mixed_c2c_kernels_as_asked(world, planners, facts, request, core, 0);
    assert forall|i: int| 0 <= i < gains.len() implies #[trigger] gains[i] == factor(gains.len() - 1 - i) by {
        law_mixed_c2c_kernels_as_asked(world, planners, facts, request, core, N - 1 - i);
    }
    lemma_factors_of_axes(gains, factor, 0);
}

/// The values of a mixed real-to-complex plan that was built come back without normalization
/// times the product, over its axes, of the extent of a Fourier axis or of the real-to-complex
/// axis and of the normalization factor of a real-to-real axis, on whichever side of the
/// boundary it lies.
pub proof fn law_mixed_r2c_gains_are_factors<H: Fn([u64; 5]) -> bool, D: Fn(Option<Vec<u64>>, Option<usize>) -> Result<Vec<u64>, FftError>, A: Fn(bool) -> bool, P: Fn([usize; N]) -> Result<Pencil<N, M>, FftError>, Q: Fn(Pencil<N, M>, [usize; N], bool) -> Result<RouteCandidate<N, M>, FftError>, T: Fn(&Vec<Stage<N, M>>, &Vec<usize>, &ExtraShape, TransposeMethod, usize) -> Result<TransitionPlan, FftError>, C: Fn(BackendChoice, usize, bool) -> Result<LocalC2cPlan, BackendInitError<LocalC2cError>>, K: Fn(BackendChoice, AxisR2rKind, usize) -> Result<LocalR2rPlan, BackendInitError<LocalR2rError>>, B: Fn(BackendChoice, usize) -> Result<LocalR2cPlan, BackendInitError<LocalR2cError>>, E: Fn(&Vec<DepthTerm>) -> Result<u64, FftError>, const N: usize, const M: usize>(
    world: World<H, D, A, P, Q, T>,
    planners: Planners<C, K, B>,
    threshold: E,
    facts: MixedFacts<M>,
    request: PlanRequest<MixedAsk<N>, N, M>,
    core: MixedR2cCore<N, M>,
    normalization: spec_fn(AxisR2rKind, usize) -> int,
)
    requires
        planners_measure(planners),
        forall|backend: BackendChoice, kind: AxisR2rKind, len: usize, plan: LocalR2rPlan| #[trigger]
            planners.r2r.ensures((backend, kind, len), Ok(plan)) ==> plan.normalization_factor
                == normalization(kind, len),
        mixed_r2c_built(world, planners, threshold, facts, request, core),
        core.wf(),
    ensures
        gains_from(mixed_r2c_gains(core), 0) == factors(
            |axis: int|
                mixed_factor(
                    request.transform.graph.transforms@[axis],
                    request.global_shape@[axis],
                    normalization,
                ),
            N as int,
        ),
{
    let factor = |axis: int|
        mixed_factor(
            request.transform.graph.transforms@[axis],
            request.global_shape@[axis],
            normalization,
        );
    let gains = mixed_r2c_gains(core);
    assert forall|i: int| 0 <= i < gains.len() implies #[trigger] gains[i] == factor(gains.len() - 1 - i) by {
        law_mixed_r2c_kernels_as_asked(world, planners, threshold, facts, request, core, N - 1 - i);
    }
    lemma_factors_of_axes(gains, factor, 0);
}

} // verus!
