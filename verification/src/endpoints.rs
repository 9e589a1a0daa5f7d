//! The step of a reverse execution that makes the endpoint planes of the half spectrum real.

use vstd::prelude::*;

use crate::array::ManyPencilArray;
use crate::boundary::endpoints_zeroed;
use crate::boundary::zero_accepted_boundary;
use crate::boundary::zero_mixed_boundary_data;
use crate::boundary::ReducedAxis;
use crate::error::FftError;
use crate::error::MixedError;
use crate::error::R2cError;
use crate::layout::lemma_product_split;
use crate::layout::memory_stride;
use crate::layout::product;
use crate::layout::Pencil;
use crate::local::LocalR2cPlan;
use crate::mixed_r2c::MixedR2cCore;
use crate::r2c::TransformPlanCore;
use crate::registry::Stage;
use crate::scalar::Complex;
use crate::scalar::FftReal;
use crate::station::front_written;
use crate::station::same_registry;

verus! {

/// How the reduced axis lies in a layout whose block starts at frequency `start`.
pub open spec fn reduced_axis<const N: usize, const M: usize>(
    pencil: Pencil<N, M>,
    axis: int,
    start: usize,
    plan: LocalR2cPlan,
) -> ReducedAxis {
    ReducedAxis {
        stride: pencil.stride_along(axis)->0,
        local_axis_len: pencil.local_shape@[axis],
        global_axis_start: start,
        real_len: plan.real_len,
        complex_len: plan.complex_len,
    }
}

/// The endpoint planes of the active elements were made real.
pub open spec fn planes_cleared<R: FftReal, const N: usize, const M: usize>(
    axis: ReducedAxis,
    before: ManyPencilArray<Complex<R>, N, M>,
    after: ManyPencilArray<Complex<R>, N, M>,
) -> bool {
    &&& same_registry(before, after)
    &&& after.active == before.active
    &&& front_written(before, after, before.active_len())
    &&& endpoints_zeroed::<R>(
        axis,
        before.storage@.subrange(0, before.active_len()),
        after.storage@.subrange(0, before.active_len()),
        before.pencils@[before.active->0 as int].local_len as int,
        before.extra_shape.element_count as int,
    )
}

pub proof fn lemma_block_has_lines<const N: usize, const M: usize>(pencil: Pencil<N, M>, axis: int)
    requires
        pencil.wf(),
        pencil.stride_along(axis) is Some,
        pencil.local_len > 0,
    ensures
        pencil.stride_along(axis)->0 > 0,
        pencil.local_shape@[axis] > 0,
{
    let p = pencil.axis_position(axis)->0;
    let extents = pencil.memory_extents();
    lemma_product_split(extents, p);
    let a = product(extents.take(p)) as int;
    let b = pencil.local_shape@[axis] as int;
    let c = pencil.stride_behind(p) as int;
    assert(b > 0 && c > 0) by (nonlinear_arith)
        requires
            a * b * c > 0,
            a >= 0,
            b >= 0,
            c >= 0,
    ;
}

/// What clearing the endpoint planes of a real-to-complex plan comes to.
pub open spec fn planes_done<R: FftReal, const N: usize, const M: usize>(
    core: TransformPlanCore<N, M>,
    start: usize,
    before: ManyPencilArray<Complex<R>, N, M>,
    after: ManyPencilArray<Complex<R>, N, M>,
    outcome: Result<(), R2cError>,
) -> bool {
    match before.spec_active_pencil() {
        Err(error) => {
            &&& outcome == Err::<(), R2cError>(R2cError::Fft(FftError::Array(error)))
            &&& after == before
        },
        Ok(pencil) => {
            let axis = core.stages@[core.boundary as int].axis as int;
            if pencil.stride_along(axis) is None {
                &&& outcome == Err::<(), R2cError>(R2cError::Fft(FftError::PreparationFailed))
                &&& after == before
            } else {
                &&& outcome is Ok
                &&& planes_cleared::<R, N, M>(
                    reduced_axis(pencil, axis, start, core.plan()),
                    before,
                    after,
                )
            }
        },
    }
}

/// Makes the endpoint planes of a real-to-complex plan real, in values whose block starts at
/// frequency `start`.
pub fn clear_planes<R: FftReal, const N: usize, const M: usize>(
    core: &TransformPlanCore<N, M>,
    start: usize,
    complexes: &mut ManyPencilArray<Complex<R>, N, M>,
) -> (outcome: Result<(), R2cError>)
    requires
        core.wf(),
        old(complexes).wf(),
        old(complexes).active matches Some(index) ==> {
            let pencil = old(complexes).pencils@[index as int];
            &&& pencil.wf()
            &&& core.stages@[core.boundary as int].axis < N
            &&& start + pencil.local_shape@[core.stages@[core.boundary as int].axis as int]
                <= usize::MAX
        },
    ensures
        final(complexes).wf(),
        planes_done(
            *core,
            start,
            *old(complexes),
            *final(complexes),
            outcome,
        ),
{
    let ghost before = *complexes;
    let pencil: Pencil<N, M> = match complexes.active_pencil() {
        Ok(pencil) => pencil,
        Err(error) => {
            return Err(R2cError::Fft(FftError::Array(error)));
        },
    };
    let stage: Stage<N, M> = core.stages[core.boundary];
    let stride: usize = match memory_stride(&pencil, stage.axis) {
        Ok(stride) => stride,
        Err(_) => {
            return Err(R2cError::Fft(FftError::PreparationFailed));
        },
    };
    let plan: LocalR2cPlan = core.boundary_plan();
    let axis = ReducedAxis {
        stride,
        local_axis_len: pencil.local_shape[stage.axis],
        global_axis_start: start,
        real_len: plan.real_len,
        complex_len: plan.complex_len,
    };
    let batches: usize = complexes.extra_shape.element_count;
    proof {
        before.lemma_active_fits();
        if pencil.local_len > 0 {
            lemma_block_has_lines(pencil, stage.axis as int);
        }
        assert(batches * pencil.local_len == before.active_len()) by (nonlinear_arith)
            requires
                before.active_len() == pencil.local_len * batches,
        ;
    }
    match complexes.active_view_mut() {
        Err(error) => Err(R2cError::Fft(FftError::Array(error))),
        Ok(view) => {
            zero_accepted_boundary(&axis, view, pencil.local_len, batches);
            let ghost written = view@;
            proof {
                let len = before.active_len();
                assert(complexes.storage@.subrange(0, len) =~= written);
                assert(complexes.storage@.subrange(len, complexes.storage@.len() as int)
                    =~= before.storage@.subrange(len, before.storage@.len() as int));
            }
            Ok(())
        },
    }
}

/// What clearing the endpoint planes of a mixed plan comes to.
pub open spec fn mixed_planes_done<R: FftReal, const N: usize, const M: usize>(
    core: MixedR2cCore<N, M>,
    before: ManyPencilArray<Complex<R>, N, M>,
    after: ManyPencilArray<Complex<R>, N, M>,
    outcome: Result<(), MixedError>,
) -> bool {
    match before.spec_active_pencil() {
        Err(error) => {
            &&& outcome == Err::<(), MixedError>(MixedError::Fft(FftError::Array(error)))
            &&& after == before
        },
        Ok(pencil) => {
            let stride = pencil.stride_along(core.stages@[core.boundary as int].axis as int);
            let block = core.plan().complex_len * stride->0;
            if stride is None || block == 0 || block > usize::MAX || pencil.local_len as int
                % block != 0 {
                &&& outcome == Err::<(), MixedError>(
                    MixedError::Fft(FftError::PreparationFailed),
                )
                &&& after.storage@ == before.storage@
                &&& after.active == before.active
                &&& same_registry(before, after)
            } else {
                &&& outcome is Ok
                &&& planes_cleared::<R, N, M>(
                    (ReducedAxis {
                        stride: stride->0,
                        local_axis_len: core.plan().complex_len,
                        global_axis_start: 0,
                        real_len: core.plan().real_len,
                        complex_len: core.plan().complex_len,
                    }),
                    before,
                    after,
                )
            }
        },
    }
}

/// Makes the endpoint planes of a mixed real-to-complex plan real.
pub fn clear_mixed_planes<R: FftReal, const N: usize, const M: usize>(
    core: &MixedR2cCore<N, M>,
    complexes: &mut ManyPencilArray<Complex<R>, N, M>,
) -> (outcome: Result<(), MixedError>)
    requires
        core.wf(),
        old(complexes).wf(),
        old(complexes).active matches Some(index) ==> old(complexes).pencils@[index as int].wf(),
    ensures
        final(complexes).wf(),
        mixed_planes_done(
            *core,
            *old(complexes),
            *final(complexes),
            outcome,
        ),
{
    let ghost before = *complexes;
    let pencil: Pencil<N, M> = match complexes.active_pencil() {
        Ok(pencil) => pencil,
        Err(error) => {
            return Err(MixedError::Fft(FftError::Array(error)));
        },
    };
    let stage: Stage<N, M> = core.stages[core.boundary];
    let stride: usize = match memory_stride(&pencil, stage.axis) {
        Ok(stride) => stride,
        Err(_) => {
            return Err(MixedError::Fft(FftError::PreparationFailed));
        },
    };
    let plan: LocalR2cPlan = core.boundary_plan();
    let batches: usize = complexes.extra_shape.element_count;
    proof {
        before.lemma_active_fits();
        assert(batches * pencil.local_len == before.active_len()) by (nonlinear_arith)
            requires
                before.active_len() == pencil.local_len * batches,
        ;
    }
    match complexes.active_view_mut() {
        Err(error) => Err(MixedError::Fft(FftError::Array(error))),
        Ok(view) => {
            let outcome: Result<(), MixedError> = zero_mixed_boundary_data(
                plan.real_len,
                plan.complex_len,
                pencil.local_len,
                stride,
                batches,
                view,
            );
            let ghost written = view@;
            proof {
                let len = before.active_len();
                assert(complexes.storage@.subrange(0, len) =~= written);
                assert(complexes.storage@.subrange(len, complexes.storage@.len() as int)
                    =~= before.storage@.subrange(len, before.storage@.len() as int));
                if outcome is Err {
                    assert(complexes.storage@ =~= before.storage@);
                }
            }
            outcome
        },
    }
}

} // verus!
