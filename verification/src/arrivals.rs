//! Where values arrive, what inspects them on the way, and what requests hold.

use vstd::prelude::*;

use crate::accepted::alike;
use crate::array::ManyPencilArray;
use crate::bins::alarms;
use crate::bins::at_place;
use crate::bins::law_alarming_endpoint_refused;
use crate::bins::law_half_planes_cleared;
use crate::bins::law_mixed_alarming_endpoint_refused;
use crate::bins::lemma_coordinates;
use crate::convert::forward_refused;
use crate::convert::reverse_refused;
use crate::crew_r2c_ip::forward_arrival_error;
use crate::crew_r2c_ip::reverse_arrival_error;
use crate::endpoints::reduced_axis;
use crate::error::ArrayError;
use crate::error::MixedError;
use crate::error::R2cError;
use crate::handoff::Boundary;
use crate::handoff::HalfComplexStorage;
use crate::handoff::SharedStorage;
use crate::inspect::HalfInspector;
use crate::inspect::Inspector;
use crate::inspect::MixedInspector;
use crate::layout::DistributedLayout;
use crate::layout::ExtraShape;
use crate::layout::FourierDirection;
use crate::layout::Pencil;
use crate::layout::TransposeMethod;
use crate::local::AxisTransform;
use crate::local::BackendChoice;
use crate::mixed_build::MixedAsk;
use crate::r2c::TransformPlanCore;
use crate::request::PlanRequest;
use crate::scalar::Complex;
use crate::scalar::FftReal;
use crate::spectrum::mixed_spectrum_checked;

verus! {

/// The values of a real-to-complex plan in place have arrived behind a forward execution
/// exactly where they are complex, lie as the last stage leaves them, and the layouts of the
/// real side are put aside.
pub proof fn law_forward_arrival<R: FftReal, const N: usize, const M: usize>(
    core: TransformPlanCore<N, M>,
    shared: SharedStorage<R, N, M>,
)
    requires
        core.wf(),
    ensures
        forward_arrival_error(core, shared) is None <==> {
            &&& shared.storage matches Some(HalfComplexStorage::Complex(values))
            &&& values.active matches Some(index) && index < values.pencils@.len() && alike(
                values.pencils@[index as int],
                core.stages@[core.stages@.len() - 1].output,
            )
            &&& shared.real_pencils is Some
            &&& shared.complex_pencils is None
        },
{
}

/// The values of a real-to-complex plan in place have arrived behind an execution home exactly
/// where they are real, lie as the first stage reads them, and the layouts of the complex side
/// are put aside.
pub proof fn law_reverse_arrival<R: FftReal, const N: usize, const M: usize>(
    core: TransformPlanCore<N, M>,
    shared: SharedStorage<R, N, M>,
)
    requires
        core.wf(),
    ensures
        reverse_arrival_error(core, shared) is None <==> {
            &&& shared.storage matches Some(HalfComplexStorage::Real(values))
            &&& values.active matches Some(index) && index < values.pencils@.len() && alike(
                values.pencils@[index as int],
                core.stages@[0].input,
            )
            &&& shared.real_pencils is None
            &&& shared.complex_pencils is Some
        },
{
}

/// Handing real values over starts only where there are real values in a layout, the layouts of the
/// complex side are at hand, and the block consists of whole lines.
pub proof fn law_handoff_starts<R: FftReal, const N: usize, const M: usize>(
    boundary: Boundary<N, M>,
    shared: SharedStorage<R, N, M>,
)
    requires
        forward_refused(boundary, shared) is None,
    ensures
        shared.storage matches Some(HalfComplexStorage::Real(values)) && values.active is Some,
        shared.complex_pencils is Some,
        boundary.stage.input.local_len as int % boundary.plan.real_len as int == 0,
        boundary.stage.input.stride_along(boundary.stage.axis as int) is Some,
{
}

/// Handing complex values over starts only where there are complex values in a layout and the
/// layouts of the real side are at hand.
pub proof fn law_handoff_home_starts<R: FftReal, const N: usize, const M: usize>(
    boundary: Boundary<N, M>,
    shared: SharedStorage<R, N, M>,
)
    requires
        reverse_refused(boundary, shared) is None,
    ensures
        shared.storage matches Some(HalfComplexStorage::Complex(values)) && values.active is Some,
        shared.real_pencils is Some,
        boundary.stage.input.local_len as int % boundary.plan.real_len as int == 0,
        boundary.stage.output.stride_along(boundary.stage.axis as int) is Some,
{
}

/// Whoever inspects the spectrum of a real-to-complex plan refuses it for one alarming value at an
/// endpoint frequency, counted from the first frequency of this process.
pub proof fn law_inspector_refuses<R: FftReal, S: Copy, A: Fn(bool) -> bool, X: Fn(&S, S, usize, Complex<R>) -> S, U: Fn(S) -> S, Y: Fn(&S, S, usize, Complex<R>) -> S, Z: Fn(S) -> S, J: Fn(S, S, S) -> bool, const N: usize, const M: usize>(
    inspector: HalfInspector<S, A, X, U, Y, Z, J, N, M>,
    complexes: ManyPencilArray<Complex<R>, N, M>,
    outcome: Result<(), R2cError>,
    alarming: spec_fn(usize, Complex<R>) -> bool,
    spoiled: spec_fn(S) -> bool,
    pencil: Pencil<N, M>,
    batch: int,
    at: (int, int, int),
)
    requires
        inspector.finds(complexes, outcome),
        inspector.core.wf(),
        alarms(*inspector.gauge, alarming, spoiled),
        forall|all_fine: bool| #[trigger] inspector.agree.ensures((false,), all_fine) ==> !all_fine,
        complexes.wf(),
        complexes.spec_active_pencil() == Ok::<Pencil<N, M>, ArrayError>(pencil),
        pencil.stride_along(inspector.core.stages@[inspector.core.boundary as int].axis as int) is Some,
        reduced_axis(
            pencil,
            inspector.core.stages@[inspector.core.boundary as int].axis as int,
            inspector.start,
            inspector.core.plan(),
        ).wf(),
        0 <= batch < complexes.extra_shape.element_count,
        at.0 >= 0,
        0 <= at.1 < pencil.local_shape@[inspector.core.stages@[inspector.core.boundary as int].axis as int],
        0 <= at.2 < pencil.stride_along(
            inspector.core.stages@[inspector.core.boundary as int].axis as int,
        )->0,
        ({
            let axis = inspector.core.stages@[inspector.core.boundary as int].axis as int;
            let offset = (at.0 * pencil.local_shape@[axis] + at.1) * pencil.stride_along(axis)->0 + at.2;
            let value = complexes.storage@[batch * pencil.local_len + offset];
            let frequency = inspector.start + at.1;
            &&& offset < pencil.local_len
            &&& frequency == 0 && alarming(0, value) || 2 * frequency == inspector.core.plan().real_len
                && alarming(1, value)
        }),
    ensures
        outcome == Err::<(), R2cError>(R2cError::InvalidSpectrum),
{
    law_alarming_endpoint_refused::<R, S, A, X, U, Y, Z, J, N, M>(
        *inspector.core,
        *inspector.agree,
        *inspector.gauge,
        inspector.zero,
        inspector.start,
        complexes,
        outcome,
        alarming,
        spoiled,
        pencil,
        batch,
        at,
    );
}

/// Whoever clears the spectrum of a real-to-complex plan makes the values at endpoint
/// frequencies real, counted from the first frequency of this process, and touches no other.
pub proof fn law_inspector_clears<R: FftReal, S: Copy, A: Fn(bool) -> bool, X: Fn(&S, S, usize, Complex<R>) -> S, U: Fn(S) -> S, Y: Fn(&S, S, usize, Complex<R>) -> S, Z: Fn(S) -> S, J: Fn(S, S, S) -> bool, const N: usize, const M: usize>(
    inspector: HalfInspector<S, A, X, U, Y, Z, J, N, M>,
    before: ManyPencilArray<Complex<R>, N, M>,
    after: ManyPencilArray<Complex<R>, N, M>,
    pencil: Pencil<N, M>,
    batch: int,
    at: (int, int, int),
)
    requires
        inspector.clears(before, after, Ok(())),
        inspector.core.wf(),
        before.wf(),
        before.spec_active_pencil() == Ok::<Pencil<N, M>, ArrayError>(pencil),
        reduced_axis(
            pencil,
            inspector.core.stages@[inspector.core.boundary as int].axis as int,
            inspector.start,
            inspector.core.plan(),
        ).wf(),
        0 <= batch < before.extra_shape.element_count,
        at.0 >= 0,
        0 <= at.1 < pencil.local_shape@[inspector.core.stages@[inspector.core.boundary as int].axis as int],
        0 <= at.2 < pencil.stride_along(
            inspector.core.stages@[inspector.core.boundary as int].axis as int,
        )->0,
        at_place(*inspector.core, pencil, 0, at.0, at.1, at.2) < pencil.local_len,
    ensures
        ({
            let place = at_place(*inspector.core, pencil, batch, at.0, at.1, at.2);
            let frequency = inspector.start + at.1;
            &&& frequency == 0 || 2 * frequency == inspector.core.plan().real_len ==> {
                &&& after.storage@[place]@[0] == before.storage@[place]@[0]
                &&& after.storage@[place]@[1] == R::zero_bits()
            }
            &&& frequency != 0 && 2 * frequency != inspector.core.plan().real_len ==> after.storage@[place]
                == before.storage@[place]
        }),
{
    law_half_planes_cleared(*inspector.core, inspector.start, before, after, pencil, batch, at);
}

/// Whoever inspects the spectrum of a mixed real-to-complex plan does not accept it with one
/// alarming value at an endpoint frequency.
pub proof fn law_mixed_inspector_refuses<R: FftReal, S: Copy, A: Fn(bool) -> bool, X: Fn(&S, S, usize, Complex<R>) -> S, U: Fn(S) -> S, Y: Fn(&S, S, usize, Complex<R>) -> S, Z: Fn(S) -> S, J: Fn(S, S, S) -> bool, const N: usize, const M: usize>(
    inspector: MixedInspector<S, A, X, U, Y, Z, J, N, M>,
    complexes: ManyPencilArray<Complex<R>, N, M>,
    outcome: Result<(), MixedError>,
    alarming: spec_fn(usize, Complex<R>) -> bool,
    spoiled: spec_fn(S) -> bool,
    pencil: Pencil<N, M>,
    stride: usize,
    batch: int,
    at: (int, int, int),
)
    requires
        inspector.finds(complexes, outcome),
        inspector.core.wf(),
        pencil.wf(),
        complexes.wf(),
        complexes.extra_shape.element_count == inspector.core.extra_shape.element_count,
        complexes.spec_active_pencil() == Ok::<Pencil<N, M>, ArrayError>(pencil),
        pencil.stride_along(inspector.core.stages@[inspector.core.boundary as int].axis as int) == Some(stride),
        alarms(*inspector.gauge, alarming, spoiled),
        forall|all_fine: bool| #[trigger] inspector.agree.ensures((false,), all_fine) ==> !all_fine,
        0 <= batch < inspector.core.extra_shape.element_count,
        at.0 >= 0,
        0 <= at.1 < inspector.core.plan().complex_len,
        0 <= at.2 < stride,
        (at.0 * inspector.core.plan().complex_len + at.1) * stride + at.2 < pencil.local_len,
        ({
            let value = complexes.storage@[batch * pencil.local_len + (at.0
                * inspector.core.plan().complex_len + at.1) * stride + at.2];
            ||| at.1 == 0 && alarming(0, value)
            ||| 2 * at.1 == inspector.core.plan().real_len && alarming(1, value)
        }),
    ensures
        outcome is Err,
{
    let input = choose|input: Result<(Pencil<N, M>, &[Complex<R>]), MixedError>|
        {
            &&& #[trigger] mixed_spectrum_checked::<S, Complex<R>, A, X, U, Y, Z, J, N, M>(
                *inspector.core,
                *inspector.agree,
                *inspector.gauge,
                inspector.zero,
                inspector.policy,
                input,
                outcome,
            )
            &&& input matches Ok((given, view)) && given == pencil && view@
                == complexes.storage@.subrange(0, complexes.active_len())
        };
    let data = input->Ok_0.1;
    let len = pencil.local_len as int;
    let count = complexes.extra_shape.element_count as int;
    complexes.lemma_active_fits();
    assert(complexes.active_len() == len * count);
    assert(0 <= batch * len && batch * len + len <= len * count) by (nonlinear_arith)
        requires
            0 <= batch < count,
            0 <= len,
    ;
    let offset = (at.0 * inspector.core.plan().complex_len + at.1) * stride + at.2;
    lemma_coordinates(at.0, at.1, at.2, inspector.core.plan().complex_len as int, stride as int);
    assert(data@[batch * len + offset] == complexes.storage@[batch * len + offset]);
    law_mixed_alarming_endpoint_refused::<S, Complex<R>, A, X, U, Y, Z, J, N, M>(
        *inspector.core,
        *inspector.agree,
        *inspector.gauge,
        inspector.zero,
        inspector.policy,
        pencil,
        stride,
        data,
        outcome,
        alarming,
        spoiled,
        batch,
        at,
    );
}

/// A request holds what was asked for: the layout or the extents, the extra dimensions, what is
/// done along the axes, and how values are exchanged and laid out.
pub proof fn law_requests_hold<K, const N: usize, const M: usize>(
    request: PlanRequest<K, N, M>,
    input: Pencil<N, M>,
    shape: [usize; N],
    extra_shape: ExtraShape,
    transform: K,
    layout: DistributedLayout,
)
    ensures
        request.starts_from(input, extra_shape, transform, layout) ==> request.input == Some(input)
            && request.global_shape == input.global_shape,
        request.starts_canonically(shape, extra_shape, transform, layout) ==> request.input is None
            && request.global_shape == shape,
        request.starts_from(input, extra_shape, transform, layout) || request.starts_canonically(
            shape,
            extra_shape,
            transform,
            layout,
        ) ==> {
            &&& request.extra_shape.dimensions@ == extra_shape.dimensions@
            &&& request.extra_shape.element_count == extra_shape.element_count
            &&& request.transform == transform
            &&& request.layout == layout
        },
{
}

/// A plan that names only how values are exchanged has memory permuted; one that was asked for with
/// nothing but transforms has forward signs and portable kernels and is a new one.
pub proof fn law_plain_requests<const N: usize>(
    ask: MixedAsk<N>,
    transforms: [AxisTransform; N],
    method: TransposeMethod,
    axis: int,
)
    requires
        ask.plain(transforms),
        0 <= axis < N,
    ensures
        ask.graph.transforms == transforms,
        ask.graph.directions.0@[axis] == FourierDirection::Forward,
        ask.graph.backend == BackendChoice::RustFft,
        !ask.rebuilt,
        DistributedLayout::spec_with_method(method).transpose_method == method,
        DistributedLayout::spec_with_method(method).permute_dims,
{
}

/// Arrays must have the very layouts of a plan exactly where it was rebuilt or has native kernels.
pub proof fn law_strict_plans<const N: usize>(ask: MixedAsk<N>)
    ensures
        ask.spec_strict() <==> ask.rebuilt || !(ask.graph.backend is RustFft),
{
}

} // verus!
