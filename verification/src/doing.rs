//! What each step of an execution does to the values.

use vstd::prelude::*;

use crate::along::called;
use crate::along::goes_along;
use crate::along::lane_of;
use crate::along::law_forward_crossing_goes_along;
use crate::along::law_mixed_forward_crossing_goes_along;
use crate::along::law_mixed_reverse_crossing_goes_along;
use crate::along::law_mixed_station_goes_along;
use crate::along::law_prefix_station_goes_along;
use crate::along::law_r2r_station_goes_along;
use crate::along::law_reverse_crossing_goes_along;
use crate::along::law_tail_station_goes_along;
use crate::along::lemma_called;
use crate::along::lemma_lane;
use crate::array::ManyPencilArray;
use crate::carrier::carried;
use crate::carrier::Load;
use crate::convert::complex_handed_over;
use crate::convert::real_handed_over;
use crate::crew::Crew;
use crate::crew_mixed_c2c::MixedC2cCrew;
use crate::crew_mixed_c2c::MixedC2cInPlaceCrew;
use crate::crew_mixed_c2c::MixedC2cInPlaceTask;
use crate::crew_mixed_c2c::MixedC2cTask;
use crate::crew_mixed_r2c::MixedR2cForwardCrew;
use crate::crew_mixed_r2c::MixedR2cForwardTask;
use crate::crew_mixed_r2c::MixedR2cReverseCrew;
use crate::crew_mixed_r2c::MixedR2cReverseTask;
use crate::crew_mixed_r2c_ip::MixedR2cInPlaceForwardCrew;
use crate::crew_mixed_r2c_ip::MixedR2cInPlaceReverseCrew;
use crate::crew_mixed_r2c_ip::MixedR2cInPlaceTask;
use crate::crew_r2c::R2cForwardCrew;
use crate::crew_r2c::R2cForwardTask;
use crate::crew_r2c::R2cReverseCrew;
use crate::crew_r2c::R2cReverseTask;
use crate::crew_r2c_ip::R2cInPlaceForwardCrew;
use crate::crew_r2c_ip::R2cInPlaceReverseCrew;
use crate::crew_r2c_ip::R2cInPlaceTask;
use crate::crew_r2r::R2rCrew;
use crate::crew_r2r::R2rInPlaceCrew;
use crate::crew_r2r::R2rInPlaceTask;
use crate::crew_r2r::R2rTask;
use crate::error::Failure;
use crate::error::FftError;
use crate::error::LocalC2cError;
use crate::error::LocalR2cError;
use crate::error::LocalR2rError;
use crate::error::MixedError;
use crate::error::R2cError;
use crate::error::R2rError;
use crate::handoff::Boundary;
use crate::handoff::HalfComplexStorage;
use crate::handoff::LineBuffers;
use crate::handoff::SharedStorage;
use crate::inspect::Inspector;
use crate::kernels::ComplexStation;
use crate::kernels::ForwardCrossing;
use crate::kernels::MixedComplexStation;
use crate::kernels::MixedForwardCrossing;
use crate::kernels::MixedRealStation;
use crate::kernels::MixedReverseCrossing;
use crate::kernels::R2rStation;
use crate::kernels::ReverseCrossing;
use crate::layout::Direction;
use crate::layout::ExtraShape;
use crate::layout::Pencil;
use crate::lines::line_at;
use crate::lines::line_maps;
use crate::local::LocalTransform;
use crate::local::MixedComplexLocal;
use crate::local::MixedR2rLocal;
use crate::local::MixedRealLocal;
use crate::local::R2rLocal;
use crate::mixed_convert::mixed_complex_handed_over;
use crate::mixed_convert::mixed_real_handed_over;
use crate::registry::Stage;
use crate::scalar::Complex;
use crate::scalar::FftReal;
use crate::scalar::R2rScalar;
use crate::schedule::Slot;
use crate::schedule::Step;
use crate::schedule::Work;
use crate::stages::LocalError;
use crate::station::entered;
use crate::station::front_written;
use crate::station::layout_index;
use crate::station::layout_len;
use crate::station::CopyStation;
use crate::station::Station;
use crate::transition::Passage;
use crate::transition::Transition;

verus! {

/// The elements that an array holds in its active layout.
pub open spec fn shown<T, const N: usize, const M: usize>(array: ManyPencilArray<T, N, M>) -> Seq<T> {
    array.storage@.subrange(
        0,
        array.pencils@[array.active->0 as int].local_len * array.extra_shape.element_count,
    )
}

/// The array holds its elements as `pencil` lays them out.
pub open spec fn laid_out<T, const N: usize, const M: usize>(
    array: ManyPencilArray<T, N, M>,
    pencil: Pencil<N, M>,
) -> bool {
    &&& array.active matches Some(index) && index < array.pencils@.len()
    &&& array.pencils@[array.active->0 as int].topology == pencil.topology
    &&& array.pencils@[array.active->0 as int].global_shape@ == pencil.global_shape@
    &&& array.pencils@[array.active->0 as int].decomposition@ == pencil.decomposition@
    &&& array.pencils@[array.active->0 as int].memory_order@ == pencil.memory_order@
    &&& array.pencils@[array.active->0 as int].local_shape@ == pencil.local_shape@
}

/// The way home goes over the layouts that the stages read, the way there over those they write.
pub open spec fn worked_in<const N: usize, const M: usize>(stage: Stage<N, M>, direction: Direction) -> Pencil<N, M> {
    match direction {
        Direction::Forward => stage.output,
        Direction::Inverse => stage.input,
        Direction::Backward => stage.input,
    }
}

/// How values move over an exchange.
pub open spec fn moved_by(transition: Transition, direction: Direction) -> Passage {
    Passage {
        direction,
        kind: match direction {
            Direction::Forward => transition.forward,
            Direction::Inverse => transition.backward,
            Direction::Backward => transition.backward,
        },
    }
}

/// What the kernel of a real-to-real or Hartley stage makes of values along an axis.
pub open spec fn r2r_worked<T, F: Fn(&[T], usize) -> Result<Vec<T>, LocalR2rError>>(
    kernel: F,
    local: R2rLocal,
    stride: Option<usize>,
    from: Seq<T>,
    to: Seq<T>,
) -> bool {
    match local {
        R2rLocal::Identity => to == from,
        R2rLocal::Transform(plan) => stride is Some && goes_along::<T, T, LocalR2rError, F>(
            kernel,
            stride->0 as int,
            (plan.line_len as int, plan.line_len as int),
            from,
            to,
        ),
        R2rLocal::Hartley(plan) => stride is Some && goes_along::<T, T, LocalR2rError, F>(
            kernel,
            stride->0 as int,
            (plan.line_len as int, plan.line_len as int),
            from,
            to,
        ),
    }
}

/// What the kernel of a complex stage of a mixed plan makes of values along an axis.
pub open spec fn mixed_worked<T, F: Fn(&[T], usize) -> Result<Vec<T>, LocalError>>(
    kernel: F,
    local: MixedComplexLocal,
    stride: Option<usize>,
    from: Seq<T>,
    to: Seq<T>,
) -> bool {
    match local {
        MixedComplexLocal::Identity => to == from,
        MixedComplexLocal::Fft(plan) => stride is Some && goes_along::<T, T, LocalError, F>(
            kernel,
            stride->0 as int,
            (plan.line_len as int, plan.line_len as int),
            from,
            to,
        ),
        MixedComplexLocal::R2r(MixedR2rLocal::Transform(plan)) => stride is Some && goes_along::<T, T, LocalError, F>(
            kernel,
            stride->0 as int,
            (plan.line_len as int, plan.line_len as int),
            from,
            to,
        ),
        MixedComplexLocal::R2r(MixedR2rLocal::Hartley(plan)) => stride is Some && goes_along::<T, T, LocalError, F>(
            kernel,
            stride->0 as int,
            (plan.line_len as int, plan.line_len as int),
            from,
            to,
        ),
    }
}

/// What the kernel of a real stage of a mixed plan makes of values along an axis.
pub open spec fn prefix_worked<T, F: Fn(&[T], usize) -> Result<Vec<T>, LocalError>>(
    kernel: F,
    local: MixedRealLocal,
    stride: Option<usize>,
    from: Seq<T>,
    to: Seq<T>,
) -> bool {
    match local {
        MixedRealLocal::Identity => to == from,
        MixedRealLocal::R2r(MixedR2rLocal::Transform(plan)) => stride is Some && goes_along::<T, T, LocalError, F>(
            kernel,
            stride->0 as int,
            (plan.line_len as int, plan.line_len as int),
            from,
            to,
        ),
        MixedRealLocal::R2r(MixedR2rLocal::Hartley(plan)) => stride is Some && goes_along::<T, T, LocalError, F>(
            kernel,
            stride->0 as int,
            (plan.line_len as int, plan.line_len as int),
            from,
            to,
        ),
        MixedRealLocal::Rfft(_) => false,
    }
}

/// What the kernel of a complex stage of a real-to-complex plan makes of values along an axis.
pub open spec fn tail_worked<T, F: Fn(&[T], usize) -> Result<Vec<T>, LocalC2cError>>(
    kernel: F,
    local: LocalTransform,
    stride: Option<usize>,
    from: Seq<T>,
    to: Seq<T>,
) -> bool {
    match local {
        LocalTransform::Identity => to == from,
        LocalTransform::Complex(plan) => stride is Some && goes_along::<T, T, LocalC2cError, F>(
            kernel,
            stride->0 as int,
            (plan.line_len as int, plan.line_len as int),
            from,
            to,
        ),
        LocalTransform::RealComplex(_) => false,
    }
}

/// What enters an array is what the stage leaves, in the layout it enters.
pub proof fn lemma_entered<A, B, E: Failure, S: Station<A, B, E>, const N: usize, const M: usize>(
    station: S,
    source: Seq<A>,
    before: ManyPencilArray<B, N, M>,
    after: ManyPencilArray<B, N, M>,
    pencil: Pencil<N, M>,
    line: usize,
) -> (original: Seq<B>)
    requires
        entered::<A, B, E, S, N, M>(station, source, before, after, pencil, line, Ok(())),
        before.wf(),
    ensures
        station.leaves(source, original, shown(after), line, Ok(())),
        laid_out(after, pencil),
{
    let index = choose|index: int|
        {
            &&& #[trigger] layout_index(before.pencils@, pencil, index)
            &&& station.leaves(
                source,
                before.storage@.subrange(0, layout_len(before, index)),
                after.storage@.subrange(0, layout_len(before, index)),
                line,
                Ok(()),
            )
            &&& front_written(before, after, layout_len(before, index))
            &&& after.active == Some(index as usize)
        };
    assert(layout_index(before.pencils@, pencil, index));
    assert(before.pencils.len() == before.pencils@.len());
    before.storage@.subrange(0, layout_len(before, index))
}

/// A step of an execution of a real-to-real or Hartley plan out of place that succeeds: a
/// kernel step calls the kernel of its stage along the axis of the stage, a copy copies, and an
/// exchange hands the values to the exchange that was asked for, in the direction of the
/// execution. The source is read only where the step says so, and the destination is written
/// only there.
pub proof fn law_r2r_step<T: R2rScalar, F: Fn(&[T], usize) -> Result<Vec<T>, LocalR2rError>, X: Fn(usize, Passage, Load<T, N, M>) -> (Load<T, N, M>, Result<(), FftError>), const N: usize, const M: usize>(
    crew: R2rCrew<T, F, X, N, M>,
    step: Step,
    before: R2rTask<T, N, M>,
    after: R2rTask<T, N, M>,
)
    requires
        crew.able(),
        crew.fit(before),
        crew.does(step, before, after, Ok(())),
    ensures
        ({
            let from = if step.from == Slot::Source {
                crew.source.data@
            } else {
                shown(before.1.intermediate)
            };
            let to = if step.to == Slot::Destination {
                after.0.data@
            } else {
                shown(after.1.intermediate)
            };
            match step.work {
                Work::Kernel(stage) => {
                    &&& stage < crew.core.stages@.len()
                    &&& r2r_worked(
                        crew.kernels@[stage as int],
                        crew.core.locals@[stage as int],
                        worked_in(crew.core.stages@[stage as int], crew.direction).stride_along(
                            crew.core.stages@[stage as int].axis as int,
                        ),
                        from,
                        to,
                    )
                },
                Work::Copy => to == from,
                Work::Exchange(index) => {
                    &&& index < crew.core.transitions@.len()
                    &&& crew.exchange.ensures(
                        (
                            index,
                            moved_by(crew.core.transitions@[index as int], crew.direction),
                            (before.1.intermediate, before.1.transpose),
                        ),
                        ((after.1.intermediate, after.1.transpose), Ok(())),
                    )
                },
                _ => false,
            }
        }),
        step.to != Slot::Destination ==> after.0.data@ == before.0.data@,
        step.from == Slot::Source && step.to == Slot::Complex && !(step.work is Exchange) ==> laid_out(
            after.1.intermediate,
            if crew.direction == Direction::Forward {
                crew.core.stages@[0].output
            } else {
                crew.core.stages@.last().output
            },
        ),
{
    match step.work {
        Work::Exchange(index) => {
            let answer = choose|answer: Result<(), FftError>|
                {
                    &&& #[trigger] crew.exchange.ensures(
                        (
                            index,
                            crew.core.transitions@[index as int].spec_passage(crew.direction),
                            (before.1.intermediate, before.1.transpose),
                        ),
                        ((after.1.intermediate, after.1.transpose), answer),
                    )
                    &&& Ok::<(), R2rError>(()) == match answer {
                        Ok(_) => Ok::<(), R2rError>(()),
                        Err(error) => Err(R2rError::spec_of_fft(error)),
                    }
                };
            match answer {
                Ok(done) => {
                    assert(answer == Ok::<(), FftError>(()));
                },
                Err(_) => {},
            }
        },
        Work::Kernel(stage) => {
            let station = crew.core.spec_station(crew.direction, step, &crew.kernels@[stage as int]);
            let line = before.1.line_buffer@.len() as usize;
            let entry = crew.core.entry_pencil(crew.direction);
            if step.from == Slot::Source {
                let original = lemma_entered::<T, T, R2rError, R2rStation<F, N, M>, N, M>(
                    station,
                    crew.source.data@,
                    before.1.intermediate,
                    after.1.intermediate,
                    entry,
                    line,
                );
                law_r2r_station_goes_along(station, crew.source.data@, original, shown(after.1.intermediate), line);
            } else if step.to == Slot::Destination {
                law_r2r_station_goes_along(station, shown(before.1.intermediate), before.0.data@, after.0.data@, line);
            } else {
                law_r2r_station_goes_along(
                    station,
                    shown(before.1.intermediate),
                    shown(before.1.intermediate),
                    shown(after.1.intermediate),
                    line,
                );
            }
        },
        Work::Copy => {
            let line = before.1.line_buffer@.len() as usize;
            if step.from == Slot::Source {
                let original = lemma_entered::<T, T, R2rError, CopyStation, N, M>(
                    CopyStation {  },
                    crew.source.data@,
                    before.1.intermediate,
                    after.1.intermediate,
                    crew.core.entry_pencil(crew.direction),
                    line,
                );
            }
        },
        _ => {},
    }
}

/// A step of an execution of a mixed complex plan out of place that succeeds: a kernel step
/// calls the kernel of its stage along the axis of the stage, a copy copies, and an exchange
/// hands the values to the exchange that was asked for, in the direction of the execution. The
/// source is read only where the step says so, and the destination is written only there.
pub proof fn law_mixed_c2c_step<R: FftReal, F: Fn(&[Complex<R>], usize) -> Result<Vec<Complex<R>>, LocalError>, X: Fn(usize, Passage, Load<Complex<R>, N, M>) -> (Load<Complex<R>, N, M>, Result<(), FftError>), const N: usize, const M: usize>(
    crew: MixedC2cCrew<R, F, X, N, M>,
    step: Step,
    before: MixedC2cTask<R, N, M>,
    after: MixedC2cTask<R, N, M>,
)
    requires
        crew.able(),
        crew.fit(before),
        crew.does(step, before, after, Ok(())),
    ensures
        ({
            let from = if step.from == Slot::Source {
                crew.source.data@
            } else {
                shown(before.1.intermediate)
            };
            let to = if step.to == Slot::Destination {
                after.0.data@
            } else {
                shown(after.1.intermediate)
            };
            match step.work {
                Work::Kernel(stage) => {
                    &&& stage < crew.core.stages@.len()
                    &&& mixed_worked(
                        crew.kernels@[stage as int],
                        crew.core.locals@[stage as int],
                        worked_in(crew.core.stages@[stage as int], crew.direction).stride_along(
                            crew.core.stages@[stage as int].axis as int,
                        ),
                        from,
                        to,
                    )
                },
                Work::Copy => to == from,
                Work::Exchange(index) => {
                    &&& index < crew.core.transitions@.len()
                    &&& crew.exchange.ensures(
                        (
                            index,
                            moved_by(crew.core.transitions@[index as int], crew.direction),
                            (before.1.intermediate, before.1.transpose),
                        ),
                        ((after.1.intermediate, after.1.transpose), Ok(())),
                    )
                },
                _ => false,
            }
        }),
        step.to != Slot::Destination ==> after.0.data@ == before.0.data@,
        step.from == Slot::Source && step.to == Slot::Complex && !(step.work is Exchange) ==> laid_out(
            after.1.intermediate,
            if crew.direction == Direction::Forward {
                crew.core.stages@[0].output
            } else {
                crew.core.stages@.last().output
            },
        ),
{
    match step.work {
        Work::Exchange(index) => {
            let answer = choose|answer: Result<(), FftError>|
                {
                    &&& #[trigger] crew.exchange.ensures(
                        (
                            index,
                            crew.core.transitions@[index as int].spec_passage(crew.direction),
                            (before.1.intermediate, before.1.transpose),
                        ),
                        ((after.1.intermediate, after.1.transpose), answer),
                    )
                    &&& Ok::<(), MixedError>(()) == match answer {
                        Ok(_) => Ok::<(), MixedError>(()),
                        Err(error) => Err(MixedError::spec_of_fft(error)),
                    }
                };
            match answer {
                Ok(done) => {
                    assert(answer == Ok::<(), FftError>(()));
                },
                Err(_) => {},
            }
        },
        Work::Kernel(stage) => {
            let station = crew.core.spec_station(crew.direction, step, &crew.kernels@[stage as int]);
            let line = before.1.line_buffer@.len() as usize;
            let entry = crew.core.entry_pencil(crew.direction);
            if step.from == Slot::Source {
                let original = lemma_entered::<Complex<R>, Complex<R>, MixedError, MixedComplexStation<F, N, M>, N, M>(
                    station,
                    crew.source.data@,
                    before.1.intermediate,
                    after.1.intermediate,
                    entry,
                    line,
                );
                law_mixed_station_goes_along(station, crew.source.data@, original, shown(after.1.intermediate), line);
            } else if step.to == Slot::Destination {
                law_mixed_station_goes_along(station, shown(before.1.intermediate), before.0.data@, after.0.data@, line);
            } else {
                law_mixed_station_goes_along(
                    station,
                    shown(before.1.intermediate),
                    shown(before.1.intermediate),
                    shown(after.1.intermediate),
                    line,
                );
            }
        },
        Work::Copy => {
            let line = before.1.line_buffer@.len() as usize;
            if step.from == Slot::Source {
                let original = lemma_entered::<Complex<R>, Complex<R>, MixedError, CopyStation, N, M>(
                    CopyStation {  },
                    crew.source.data@,
                    before.1.intermediate,
                    after.1.intermediate,
                    crew.core.entry_pencil(crew.direction),
                    line,
                );
            }
        },
        _ => {},
    }
}

/// A step of an execution of a real-to-real or Hartley plan in place that succeeds: a kernel
/// step calls the kernel of its stage along the axis of the stage, and an exchange hands the
/// values to the exchange that was asked for, in the direction of the execution.
pub proof fn law_r2r_step_in_place<T: R2rScalar, F: Fn(&[T], usize) -> Result<Vec<T>, LocalR2rError>, X: Fn(usize, Passage, Load<T, N, M>) -> (Load<T, N, M>, Result<(), FftError>), const N: usize, const M: usize>(
    crew: R2rInPlaceCrew<F, X, N, M>,
    step: Step,
    before: R2rInPlaceTask<T, N, M>,
    after: R2rInPlaceTask<T, N, M>,
)
    requires
        crew.does(step, before, after, Ok(())),
        before.0.array.active is Some,
    ensures
        match step.work {
            Work::Kernel(stage) => {
                &&& stage < crew.core.stages@.len()
                &&& r2r_worked(
                    crew.kernels@[stage as int],
                    crew.core.locals@[stage as int],
                    worked_in(crew.core.stages@[stage as int], crew.direction).stride_along(
                        crew.core.stages@[stage as int].axis as int,
                    ),
                    shown(before.0.array),
                    shown(after.0.array),
                )
                &&& after.0.array.active == before.0.array.active
                &&& after.0.array.pencils == before.0.array.pencils
            },
            Work::Exchange(index) => {
                &&& index < crew.core.transitions@.len()
                &&& crew.exchange.ensures(
                    (
                        index,
                        moved_by(crew.core.transitions@[index as int], crew.direction),
                        (before.0.array, before.1.transpose),
                    ),
                    ((after.0.array, after.1.transpose), Ok(())),
                )
            },
            _ => false,
        },
{
    match step.work {
        Work::Exchange(index) => {
            let answer = choose|answer: Result<(), FftError>|
                {
                    &&& #[trigger] crew.exchange.ensures(
                        (
                            index,
                            crew.core.transitions@[index as int].spec_passage(crew.direction),
                            (before.0.array, before.1.transpose),
                        ),
                        ((after.0.array, after.1.transpose), answer),
                    )
                    &&& Ok::<(), R2rError>(()) == match answer {
                        Ok(_) => Ok::<(), R2rError>(()),
                        Err(error) => Err(R2rError::spec_of_fft(error)),
                    }
                };
            match answer {
                Ok(done) => {
                    assert(answer == Ok::<(), FftError>(()));
                },
                Err(_) => {},
            }
        },
        Work::Kernel(stage) => {
            law_r2r_station_goes_along(
                crew.core.spec_station(crew.direction, step, &crew.kernels@[stage as int]),
                shown(before.0.array),
                shown(before.0.array),
                shown(after.0.array),
                before.1.line_buffer@.len() as usize,
            );
        },
        _ => {},
    }
}

/// A step of an execution of a mixed complex plan in place that succeeds: a kernel step calls
/// the kernel of its stage along the axis of the stage, and an exchange hands the values to the
/// exchange that was asked for, in the direction of the execution.
pub proof fn law_mixed_c2c_step_in_place<R: FftReal, F: Fn(&[Complex<R>], usize) -> Result<Vec<Complex<R>>, LocalError>, X: Fn(usize, Passage, Load<Complex<R>, N, M>) -> (Load<Complex<R>, N, M>, Result<(), FftError>), const N: usize, const M: usize>(
    crew: MixedC2cInPlaceCrew<F, X, N, M>,
    step: Step,
    before: MixedC2cInPlaceTask<R, N, M>,
    after: MixedC2cInPlaceTask<R, N, M>,
)
    requires
        crew.does(step, before, after, Ok(())),
        before.0.array.active is Some,
    ensures
        match step.work {
            Work::Kernel(stage) => {
                &&& stage < crew.core.stages@.len()
                &&& mixed_worked(
                    crew.kernels@[stage as int],
                    crew.core.locals@[stage as int],
                    worked_in(crew.core.stages@[stage as int], crew.direction).stride_along(
                        crew.core.stages@[stage as int].axis as int,
                    ),
                    shown(before.0.array),
                    shown(after.0.array),
                )
                &&& after.0.array.active == before.0.array.active
                &&& after.0.array.pencils == before.0.array.pencils
            },
            Work::Exchange(index) => {
                &&& index < crew.core.transitions@.len()
                &&& crew.exchange.ensures(
                    (
                        index,
                        moved_by(crew.core.transitions@[index as int], crew.direction),
                        (before.0.array, before.1.transpose),
                    ),
                    ((after.0.array, after.1.transpose), Ok(())),
                )
            },
            _ => false,
        },
{
    match step.work {
        Work::Exchange(index) => {
            let answer = choose|answer: Result<(), FftError>|
                {
                    &&& #[trigger] crew.exchange.ensures(
                        (
                            index,
                            crew.core.transitions@[index as int].spec_passage(crew.direction),
                            (before.0.array, before.1.transpose),
                        ),
                        ((after.0.array, after.1.transpose), answer),
                    )
                    &&& Ok::<(), MixedError>(()) == match answer {
                        Ok(_) => Ok::<(), MixedError>(()),
                        Err(error) => Err(MixedError::spec_of_fft(error)),
                    }
                };
            match answer {
                Ok(done) => {
                    assert(answer == Ok::<(), FftError>(()));
                },
                Err(_) => {},
            }
        },
        Work::Kernel(stage) => {
            law_mixed_station_goes_along(
                crew.core.spec_station(crew.direction, step, &crew.kernels@[stage as int]),
                shown(before.0.array),
                shown(before.0.array),
                shown(after.0.array),
                before.1.line_buffer@.len() as usize,
            );
        },
        _ => {},
    }
}

/// An exchange that succeeds was handed the values and what is to be done.
pub proof fn lemma_carried<T, E: Failure, X: Fn(usize, Passage, Load<T, N, M>) -> (Load<T, N, M>, Result<(), FftError>), const N: usize, const M: usize>(
    exchange: X,
    transitions: Seq<Transition>,
    direction: Direction,
    index: usize,
    before: Load<T, N, M>,
    after: Load<T, N, M>,
)
    requires
        carried::<T, E, X, N, M>(exchange, transitions, direction, index, before, after, Ok(())),
    ensures
        index < transitions.len(),
        exchange.ensures(
            (index, moved_by(transitions[index as int], direction), before),
            (after, Ok(())),
        ),
{
    let answer = choose|answer: Result<(), FftError>|
        {
            &&& #[trigger] exchange.ensures(
                (index, transitions[index as int].spec_passage(direction), before),
                (after, answer),
            )
            &&& Ok::<(), E>(()) == match answer {
                Ok(_) => Ok::<(), E>(()),
                Err(error) => Err(E::spec_of_fft(error)),
            }
        };
    match answer {
        Ok(done) => {
            assert(answer == Ok::<(), FftError>(()));
        },
        Err(_) => {},
    }
}

/// A step of a forward execution of a real-to-complex plan out of place that succeeds: a kernel
/// step calls the kernel of its stage along the axis of the stage, or the kernel of the
/// boundary along its axis where it leads from reals to complex values; a copy copies; and an
/// exchange hands the values to the exchange that was asked for, in the direction of the
/// execution.
pub proof fn law_r2c_forward_step<R: FftReal, FX: Fn(&[R], usize) -> Result<Vec<Complex<R>>, LocalR2cError>, FC: Fn(&[Complex<R>], usize) -> Result<Vec<Complex<R>>, LocalC2cError>, XR: Fn(usize, Passage, Load<R, N, M>) -> (Load<R, N, M>, Result<(), FftError>), XC: Fn(usize, Passage, Load<Complex<R>, N, M>) -> (Load<Complex<R>, N, M>, Result<(), FftError>), const N: usize, const M: usize>(
    crew: R2cForwardCrew<R, FX, FC, XR, XC, N, M>,
    step: Step,
    before: R2cForwardTask<R, N, M>,
    after: R2cForwardTask<R, N, M>,
)
    requires
        crew.able(),
        crew.fit(before),
        before.1.intermediate.active is Some || step.to == Slot::Complex || step.from == Slot::Real,
        crew.does(step, before, after, Ok(())),
    ensures
        ({
            match step.work {
                Work::Kernel(stage) => {
                    &&& stage < crew.core.stages@.len()
                    &&& step.from != Slot::Complex && step.to == Slot::Complex ==> {
                        let boundary = crew.core.stages@[crew.core.boundary as int];
                        &&& boundary.input.stride_along(boundary.axis as int) is Some
                        &&& laid_out(after.1.intermediate, crew.core.stages@[crew.core.boundary as int].output)
                        &&& goes_along::<R, Complex<R>, LocalR2cError, FX>(
                            *crew.crossing,
                            boundary.input.stride_along(boundary.axis as int)->0 as int,
                            (crew.core.plan().real_len as int, crew.core.plan().complex_len as int),
                            if step.from == Slot::Source {
                                crew.source.data@
                            } else {
                                shown(before.1.real_intermediate->0)
                            },
                            shown(after.1.intermediate),
                        )
                    }
                    &&& step.from == Slot::Complex && true ==> tail_worked(
                        crew.kernels@[stage as int],
                        crew.core.locals@[stage as int],
                        worked_in(crew.core.stages@[stage as int], Direction::Forward).stride_along(
                                crew.core.stages@[stage as int].axis as int,
                            ),
                        shown(before.1.intermediate),
                        if step.to == Slot::Destination {
                                after.0.data@
                            } else {
                                shown(after.1.intermediate)
                            },
                    )
                },
                Work::Copy => {
                    &&& step.from == Slot::Source ==> step.to == Slot::Real && shown(
                        after.1.real_intermediate->0,
                    ) == crew.source.data@ && laid_out(
                        after.1.real_intermediate->0,
                        crew.core.stages@[0].output,
                    )
                    &&& step.from == Slot::Complex ==> step.to == Slot::Destination && after.0.data@
                        == shown(before.1.intermediate)
                    &&& step.from == Slot::Source || step.from == Slot::Complex
                },
                Work::Exchange(index) => {
                    &&& index < crew.core.transitions@.len()
                    &&& step.from == Slot::Real ==> {
                        &&& before.1.real_intermediate is Some
                        &&& before.1.real_transpose is Some
                        &&& crew.real_exchange.ensures(
                            (
                                index,
                                moved_by(crew.core.transitions@[index as int], Direction::Forward),
                                (before.1.real_intermediate->0, before.1.real_transpose->0),
                            ),
                            ((after.1.real_intermediate->0, after.1.real_transpose->0), Ok(())),
                        )
                        &&& after.1.intermediate == before.1.intermediate
                    }
                    &&& step.from != Slot::Real ==> {
                        &&& crew.exchange.ensures(
                            (
                                index,
                                moved_by(crew.core.transitions@[index as int], Direction::Forward),
                                (before.1.intermediate, before.1.transpose),
                            ),
                            ((after.1.intermediate, after.1.transpose), Ok(())),
                        )
                        &&& after.1.real_intermediate == before.1.real_intermediate
                    }
                },
                _ => false,
            }
        }),
        step.to != Slot::Destination ==> after.0.data@ == before.0.data@,
{
    let entries = crew.core.entries(Direction::Forward);
    match step.work {
        Work::Exchange(index) => {
            if step.from == Slot::Real {
                lemma_carried::<R, R2cError, XR, N, M>(
                    *crew.real_exchange,
                    crew.core.transitions@,
                    Direction::Forward,
                    index,
                    (before.1.real_intermediate->0, before.1.real_transpose->0),
                    (after.1.real_intermediate->0, after.1.real_transpose->0),
                );
            } else {
                lemma_carried::<Complex<R>, R2cError, XC, N, M>(
                    *crew.exchange,
                    crew.core.transitions@,
                    Direction::Forward,
                    index,
                    (before.1.intermediate, before.1.transpose),
                    (after.1.intermediate, after.1.transpose),
                );
            }
        },
        Work::Kernel(stage) => {
            let crossing = crew.core.spec_forward_crossing(crew.crossing, before.1.complex_line@.len() as usize);
            let tail = crew.core.spec_tail_station(Direction::Forward, step, &crew.kernels@[stage as int]);
            if step.from != Slot::Complex && step.to == Slot::Complex {
                let from = if step.from == Slot::Source {
                                crew.source.data@
                            } else {
                                shown(before.1.real_intermediate->0)
                            };
                let original = lemma_entered::<R, Complex<R>, R2cError, ForwardCrossing<FX, N, M>, N, M>(
                    crossing,
                    from,
                    before.1.intermediate,
                    after.1.intermediate,
                    entries.crossing,
                    (match before.1.real_source_line { Some(line) => line@.len(), None => 0 }) as usize,
                );
                law_forward_crossing_goes_along::<R, FX, N, M>(crossing, from, original, shown(after.1.intermediate), (match before.1.real_source_line { Some(line) => line@.len(), None => 0 }) as usize);
            }
            if step.from == Slot::Complex {
                if step.to == Slot::Destination {
                    law_tail_station_goes_along(tail, shown(before.1.intermediate), before.0.data@, after.0.data@, before.1.complex_strided_line@.len() as usize);
                } else {
                    law_tail_station_goes_along(
                        tail,
                        shown(before.1.intermediate),
                        shown(before.1.intermediate),
                        shown(after.1.intermediate),
                        before.1.complex_strided_line@.len() as usize,
                    );
                }
            }
        },
        Work::Copy => {
            if step.from == Slot::Source {
                let original = lemma_entered::<R, R, R2cError, CopyStation, N, M>(
                    CopyStation {  },
                    crew.source.data@,
                    before.1.real_intermediate->0,
                    after.1.real_intermediate->0,
                    entries.source,
                    before.1.real_line@.len() as usize,
                );
            }
        },
        _ => {},
    }
}

/// A step of a reverse execution of a real-to-complex plan out of place that succeeds: a kernel
/// step calls the kernel of its stage along the axis of the stage, or the kernel of the
/// boundary along its axis where it leads from complex values to reals; a copy copies; and an
/// exchange hands the values to the exchange that was asked for, in the direction of the
/// execution.
pub proof fn law_r2c_reverse_step<R: FftReal, FX: Fn(&[Complex<R>], usize) -> Result<Vec<R>, LocalR2cError>, FC: Fn(&[Complex<R>], usize) -> Result<Vec<Complex<R>>, LocalC2cError>, XR: Fn(usize, Passage, Load<R, N, M>) -> (Load<R, N, M>, Result<(), FftError>), XC: Fn(usize, Passage, Load<Complex<R>, N, M>) -> (Load<Complex<R>, N, M>, Result<(), FftError>), V: Inspector<R, R2cError, N, M>, const N: usize, const M: usize>(
    crew: R2cReverseCrew<R, FX, FC, XR, XC, V, N, M>,
    step: Step,
    before: R2cReverseTask<R, N, M>,
    after: R2cReverseTask<R, N, M>,
)
    requires
        crew.able(),
        crew.fit(before),
        before.1.intermediate.active is Some || step.from == Slot::Source || step.from == Slot::Real,
        crew.does(step, before, after, Ok(())),
    ensures
        ({
            match step.work {
                Work::Kernel(stage) => {
                    &&& stage < crew.core.stages@.len()
                    &&& step.from == Slot::Complex && step.to != Slot::Complex ==> {
                        let boundary = crew.core.stages@[crew.core.boundary as int];
                        &&& boundary.output.stride_along(boundary.axis as int) is Some
                        &&& (step.to == Slot::Real ==> laid_out(after.1.real_intermediate->0, crew.core.stages@[crew.core.boundary as int].input))
                        &&& goes_along::<Complex<R>, R, LocalR2cError, FX>(
                            *crew.crossing,
                            boundary.output.stride_along(boundary.axis as int)->0 as int,
                            (crew.core.plan().complex_len as int, crew.core.plan().real_len as int),
                            shown(before.1.intermediate),
                            if step.to == Slot::Destination {
                                after.0.data@
                            } else {
                                shown(after.1.real_intermediate->0)
                            },
                        )
                    }
                    &&& step.to == Slot::Complex && true ==> tail_worked(
                        crew.kernels@[stage as int],
                        crew.core.locals@[stage as int],
                        worked_in(crew.core.stages@[stage as int], Direction::Inverse).stride_along(
                                crew.core.stages@[stage as int].axis as int,
                            ),
                        if step.from == Slot::Source {
                                crew.source.data@
                            } else {
                                shown(before.1.intermediate)
                            },
                        shown(after.1.intermediate),
                    )
                },
                Work::Copy => {
                    &&& step.from == Slot::Source ==> step.to == Slot::Complex && shown(
                        after.1.intermediate,
                    ) == crew.source.data@ && laid_out(
                        after.1.intermediate,
                        crew.core.stages@.last().output,
                    )
                    &&& step.from == Slot::Real ==> step.to == Slot::Destination && after.0.data@ == shown(
                        before.1.real_intermediate->0,
                    )
                    &&& step.from == Slot::Source || step.from == Slot::Real
                },
                Work::Exchange(index) => {
                    &&& index < crew.core.transitions@.len()
                    &&& step.from == Slot::Real ==> {
                        &&& before.1.real_intermediate is Some
                        &&& before.1.real_transpose is Some
                        &&& crew.real_exchange.ensures(
                            (
                                index,
                                moved_by(crew.core.transitions@[index as int], crew.direction),
                                (before.1.real_intermediate->0, before.1.real_transpose->0),
                            ),
                            ((after.1.real_intermediate->0, after.1.real_transpose->0), Ok(())),
                        )
                        &&& after.1.intermediate == before.1.intermediate
                    }
                    &&& step.from != Slot::Real ==> {
                        &&& crew.exchange.ensures(
                            (
                                index,
                                moved_by(crew.core.transitions@[index as int], crew.direction),
                                (before.1.intermediate, before.1.transpose),
                            ),
                            ((after.1.intermediate, after.1.transpose), Ok(())),
                        )
                        &&& after.1.real_intermediate == before.1.real_intermediate
                    }
                },
                Work::Validate => after == before && crew.inspector.finds(before.1.intermediate, Ok(())),
                Work::Clear => after.0 == before.0 && after.1.real_intermediate == before.1.real_intermediate
                    && crew.inspector.clears(before.1.intermediate, after.1.intermediate, Ok(())),
                _ => false,
            }
        }),
        step.to != Slot::Destination ==> after.0.data@ == before.0.data@,
{
    let entries = crew.core.entries(Direction::Inverse);
    match step.work {
        Work::Exchange(index) => {
            if step.from == Slot::Real {
                lemma_carried::<R, R2cError, XR, N, M>(
                    *crew.real_exchange,
                    crew.core.transitions@,
                    crew.direction,
                    index,
                    (before.1.real_intermediate->0, before.1.real_transpose->0),
                    (after.1.real_intermediate->0, after.1.real_transpose->0),
                );
            } else {
                lemma_carried::<Complex<R>, R2cError, XC, N, M>(
                    *crew.exchange,
                    crew.core.transitions@,
                    crew.direction,
                    index,
                    (before.1.intermediate, before.1.transpose),
                    (after.1.intermediate, after.1.transpose),
                );
            }
        },
        Work::Kernel(stage) => {
            let crossing = crew.core.spec_reverse_crossing(crew.crossing, before.1.real_line@.len() as usize);
            let tail = crew.core.spec_tail_station(Direction::Inverse, step, &crew.kernels@[stage as int]);
            if step.from == Slot::Complex && step.to != Slot::Complex {
                let from = shown(before.1.intermediate);
                if step.to == Slot::Destination {
                    law_reverse_crossing_goes_along::<R, FX, N, M>(crossing, from, before.0.data@, after.0.data@, before.1.complex_strided_line@.len() as usize);
                } else {
                    let original = lemma_entered::<Complex<R>, R, R2cError, ReverseCrossing<FX, N, M>, N, M>(
                        crossing,
                        from,
                        before.1.real_intermediate->0,
                        after.1.real_intermediate->0,
                        entries.crossing,
                        before.1.complex_strided_line@.len() as usize,
                    );
                    law_reverse_crossing_goes_along::<R, FX, N, M>(
                        crossing,
                        from,
                        original,
                        shown(after.1.real_intermediate->0),
                        before.1.complex_strided_line@.len() as usize,
                    );
                }
            }
            if step.to == Slot::Complex {
                if step.from == Slot::Source {
                    let original = lemma_entered::<Complex<R>, Complex<R>, R2cError, ComplexStation<FC, N, M>, N, M>(
                        tail,
                        crew.source.data@,
                        before.1.intermediate,
                        after.1.intermediate,
                        entries.source,
                        before.1.complex_strided_line@.len() as usize,
                    );
                    law_tail_station_goes_along(tail, crew.source.data@, original, shown(after.1.intermediate), before.1.complex_strided_line@.len() as usize);
                } else {
                    law_tail_station_goes_along(
                        tail,
                        shown(before.1.intermediate),
                        shown(before.1.intermediate),
                        shown(after.1.intermediate),
                        before.1.complex_strided_line@.len() as usize,
                    );
                }
            }
        },
        Work::Copy => {
            if step.from == Slot::Source {
                let original = lemma_entered::<Complex<R>, Complex<R>, R2cError, CopyStation, N, M>(
                    CopyStation {  },
                    crew.source.data@,
                    before.1.intermediate,
                    after.1.intermediate,
                    entries.source,
                    before.1.complex_strided_line@.len() as usize,
                );
            }
        },
        _ => {},
    }
}

/// A step of a forward execution of a mixed real-to-complex plan out of place that succeeds: a
/// kernel step calls the kernel of its stage along the axis of the stage, or the kernel of the
/// boundary along its axis where it leads from reals to complex values; a copy copies; and an
/// exchange hands the values to the exchange that was asked for, in the direction of the
/// execution.
pub proof fn law_mixed_r2c_forward_step<R: FftReal, FR: Fn(&[R], usize) -> Result<Vec<R>, LocalError>, FX: Fn(&[R], usize) -> Result<Vec<Complex<R>>, LocalError>, FC: Fn(&[Complex<R>], usize) -> Result<Vec<Complex<R>>, LocalError>, XR: Fn(usize, Passage, Load<R, N, M>) -> (Load<R, N, M>, Result<(), FftError>), XC: Fn(usize, Passage, Load<Complex<R>, N, M>) -> (Load<Complex<R>, N, M>, Result<(), FftError>), const N: usize, const M: usize>(
    crew: MixedR2cForwardCrew<R, FR, FX, FC, XR, XC, N, M>,
    step: Step,
    before: MixedR2cForwardTask<R, N, M>,
    after: MixedR2cForwardTask<R, N, M>,
)
    requires
        crew.able(),
        crew.fit(before),
        before.1.intermediate.active is Some || step.to == Slot::Complex || step.from == Slot::Real,
        crew.does(step, before, after, Ok(())),
    ensures
        ({
            match step.work {
                Work::Kernel(stage) => {
                    &&& stage < crew.core.stages@.len()
                    &&& step.from != Slot::Complex && step.to == Slot::Complex ==> {
                        let boundary = crew.core.stages@[crew.core.boundary as int];
                        &&& boundary.input.stride_along(boundary.axis as int) is Some
                        &&& laid_out(after.1.intermediate, crew.core.stages@[crew.core.boundary as int].output)
                        &&& goes_along::<R, Complex<R>, LocalError, FX>(
                            *crew.crossing,
                            boundary.input.stride_along(boundary.axis as int)->0 as int,
                            (crew.core.plan().real_len as int, crew.core.plan().complex_len as int),
                            if step.from == Slot::Source {
                                crew.source.data@
                            } else {
                                shown(before.1.real_intermediate->0)
                            },
                            shown(after.1.intermediate),
                        )
                    }
                    &&& step.from == Slot::Complex && crew.core.locals@[stage as int] is Complex ==> mixed_worked(
                        crew.kernels@[stage as int],
                        crew.core.locals@[stage as int]->Complex_0,
                        worked_in(crew.core.stages@[stage as int], Direction::Forward).stride_along(
                                crew.core.stages@[stage as int].axis as int,
                            ),
                        shown(before.1.intermediate),
                        if step.to == Slot::Destination {
                                after.0.data@
                            } else {
                                shown(after.1.intermediate)
                            },
                    )
                    &&& step.from != Slot::Complex && step.to == Slot::Real && crew.core.locals@[stage as int] is Real ==> prefix_worked(
                        crew.prefixes@[stage as int],
                        crew.core.locals@[stage as int]->Real_0,
                        worked_in(crew.core.stages@[stage as int], Direction::Forward).stride_along(
                                crew.core.stages@[stage as int].axis as int,
                            ),
                        if step.from == Slot::Source {
                                crew.source.data@
                            } else {
                                shown(before.1.real_intermediate->0)
                            },
                        shown(after.1.real_intermediate->0),
                    )
                },
                Work::Copy => {
                    &&& step.from == Slot::Source ==> step.to == Slot::Real && shown(
                        after.1.real_intermediate->0,
                    ) == crew.source.data@ && laid_out(
                        after.1.real_intermediate->0,
                        crew.core.stages@[0].output,
                    )
                    &&& step.from == Slot::Complex ==> step.to == Slot::Destination && after.0.data@
                        == shown(before.1.intermediate)
                    &&& step.from == Slot::Source || step.from == Slot::Complex
                },
                Work::Exchange(index) => {
                    &&& index < crew.core.transitions@.len()
                    &&& step.from == Slot::Real ==> {
                        &&& before.1.real_intermediate is Some
                        &&& before.1.buffers.real_transpose is Some
                        &&& crew.real_exchange.ensures(
                            (
                                index,
                                moved_by(crew.core.transitions@[index as int], Direction::Forward),
                                (before.1.real_intermediate->0, before.1.buffers.real_transpose->0),
                            ),
                            ((after.1.real_intermediate->0, after.1.buffers.real_transpose->0), Ok(())),
                        )
                        &&& after.1.intermediate == before.1.intermediate
                    }
                    &&& step.from != Slot::Real ==> {
                        &&& crew.exchange.ensures(
                            (
                                index,
                                moved_by(crew.core.transitions@[index as int], Direction::Forward),
                                (before.1.intermediate, before.1.buffers.transpose),
                            ),
                            ((after.1.intermediate, after.1.buffers.transpose), Ok(())),
                        )
                        &&& after.1.real_intermediate == before.1.real_intermediate
                    }
                },
                _ => false,
            }
        }),
        step.to != Slot::Destination ==> after.0.data@ == before.0.data@,
{
    let entries = crew.core.entries(Direction::Forward);
    match step.work {
        Work::Exchange(index) => {
            if step.from == Slot::Real {
                lemma_carried::<R, MixedError, XR, N, M>(
                    *crew.real_exchange,
                    crew.core.transitions@,
                    Direction::Forward,
                    index,
                    (before.1.real_intermediate->0, before.1.buffers.real_transpose->0),
                    (after.1.real_intermediate->0, after.1.buffers.real_transpose->0),
                );
            } else {
                lemma_carried::<Complex<R>, MixedError, XC, N, M>(
                    *crew.exchange,
                    crew.core.transitions@,
                    Direction::Forward,
                    index,
                    (before.1.intermediate, before.1.buffers.transpose),
                    (after.1.intermediate, after.1.buffers.transpose),
                );
            }
        },
        Work::Kernel(stage) => {
            let crossing = crew.core.spec_forward_crossing(crew.crossing, before.1.buffers.complex_line@.len() as usize);
            let tail = crew.core.spec_tail_station(Direction::Forward, step, &crew.kernels@[stage as int]);
            let prefix = crew.core.spec_prefix_station(Direction::Forward, step, &crew.prefixes@[stage as int]);
            if step.from != Slot::Complex && step.to == Slot::Complex {
                let from = if step.from == Slot::Source {
                                crew.source.data@
                            } else {
                                shown(before.1.real_intermediate->0)
                            };
                let original = lemma_entered::<R, Complex<R>, MixedError, MixedForwardCrossing<FX, N, M>, N, M>(
                    crossing,
                    from,
                    before.1.intermediate,
                    after.1.intermediate,
                    entries.crossing,
                    before.1.buffers.real_source_line@.len() as usize,
                );
                law_mixed_forward_crossing_goes_along::<R, FX, N, M>(crossing, from, original, shown(after.1.intermediate), before.1.buffers.real_source_line@.len() as usize);
            }
            if step.from == Slot::Complex {
                if step.to == Slot::Destination {
                    law_mixed_station_goes_along(tail, shown(before.1.intermediate), before.0.data@, after.0.data@, before.1.buffers.complex_strided_line@.len() as usize);
                } else {
                    law_mixed_station_goes_along(
                        tail,
                        shown(before.1.intermediate),
                        shown(before.1.intermediate),
                        shown(after.1.intermediate),
                        before.1.buffers.complex_strided_line@.len() as usize,
                    );
                }
            }
            if step.from != Slot::Complex && step.to == Slot::Real {
                if step.from == Slot::Source {
                    let original = lemma_entered::<R, R, MixedError, MixedRealStation<FR, N, M>, N, M>(
                        prefix,
                        crew.source.data@,
                        before.1.real_intermediate->0,
                        after.1.real_intermediate->0,
                        entries.source,
                        before.1.buffers.real_strided_line@.len() as usize,
                    );
                    law_prefix_station_goes_along(
                        prefix,
                        crew.source.data@,
                        original,
                        shown(after.1.real_intermediate->0),
                        before.1.buffers.real_strided_line@.len() as usize,
                    );
                } else {
                    law_prefix_station_goes_along(
                        prefix,
                        shown(before.1.real_intermediate->0),
                        shown(before.1.real_intermediate->0),
                        shown(after.1.real_intermediate->0),
                        before.1.buffers.real_strided_line@.len() as usize,
                    );
                }
            }
        },
        Work::Copy => {
            if step.from == Slot::Source {
                let original = lemma_entered::<R, R, MixedError, CopyStation, N, M>(
                    CopyStation {  },
                    crew.source.data@,
                    before.1.real_intermediate->0,
                    after.1.real_intermediate->0,
                    entries.source,
                    before.1.buffers.real_strided_line@.len() as usize,
                );
            }
        },
        _ => {},
    }
}

/// A step of a reverse execution of a mixed real-to-complex plan out of place that succeeds: a
/// kernel step calls the kernel of its stage along the axis of the stage, or the kernel of the
/// boundary along its axis where it leads from complex values to reals; a copy copies; and an
/// exchange hands the values to the exchange that was asked for, in the direction of the
/// execution.
pub proof fn law_mixed_r2c_reverse_step<R: FftReal, FR: Fn(&[R], usize) -> Result<Vec<R>, LocalError>, FX: Fn(&[Complex<R>], usize) -> Result<Vec<R>, LocalError>, FC: Fn(&[Complex<R>], usize) -> Result<Vec<Complex<R>>, LocalError>, XR: Fn(usize, Passage, Load<R, N, M>) -> (Load<R, N, M>, Result<(), FftError>), XC: Fn(usize, Passage, Load<Complex<R>, N, M>) -> (Load<Complex<R>, N, M>, Result<(), FftError>), V: Inspector<R, MixedError, N, M>, const N: usize, const M: usize>(
    crew: MixedR2cReverseCrew<R, FR, FX, FC, XR, XC, V, N, M>,
    step: Step,
    before: MixedR2cReverseTask<R, N, M>,
    after: MixedR2cReverseTask<R, N, M>,
)
    requires
        crew.able(),
        crew.fit(before),
        before.1.intermediate.active is Some || step.from == Slot::Source || step.from == Slot::Real,
        crew.does(step, before, after, Ok(())),
    ensures
        ({
            match step.work {
                Work::Kernel(stage) => {
                    &&& stage < crew.core.stages@.len()
                    &&& step.from == Slot::Complex && step.to != Slot::Complex ==> {
                        let boundary = crew.core.stages@[crew.core.boundary as int];
                        &&& boundary.output.stride_along(boundary.axis as int) is Some
                        &&& (step.to == Slot::Real ==> laid_out(after.1.real_intermediate->0, crew.core.stages@[crew.core.boundary as int].input))
                        &&& goes_along::<Complex<R>, R, LocalError, FX>(
                            *crew.crossing,
                            boundary.output.stride_along(boundary.axis as int)->0 as int,
                            (crew.core.plan().complex_len as int, crew.core.plan().real_len as int),
                            shown(before.1.intermediate),
                            if step.to == Slot::Destination {
                                after.0.data@
                            } else {
                                shown(after.1.real_intermediate->0)
                            },
                        )
                    }
                    &&& step.to == Slot::Complex && crew.core.locals@[stage as int] is Complex ==> mixed_worked(
                        crew.kernels@[stage as int],
                        crew.core.locals@[stage as int]->Complex_0,
                        worked_in(crew.core.stages@[stage as int], Direction::Inverse).stride_along(
                                crew.core.stages@[stage as int].axis as int,
                            ),
                        if step.from == Slot::Source {
                                crew.source.data@
                            } else {
                                shown(before.1.intermediate)
                            },
                        shown(after.1.intermediate),
                    )
                    &&& step.from == Slot::Real && crew.core.locals@[stage as int] is Real ==> prefix_worked(
                        crew.prefixes@[stage as int],
                        crew.core.locals@[stage as int]->Real_0,
                        worked_in(crew.core.stages@[stage as int], Direction::Inverse).stride_along(
                                crew.core.stages@[stage as int].axis as int,
                            ),
                        shown(before.1.real_intermediate->0),
                        if step.to == Slot::Destination {
                                after.0.data@
                            } else {
                                shown(after.1.real_intermediate->0)
                            },
                    )
                },
                Work::Copy => {
                    &&& step.from == Slot::Source ==> step.to == Slot::Complex && shown(
                        after.1.intermediate,
                    ) == crew.source.data@ && laid_out(
                        after.1.intermediate,
                        crew.core.stages@.last().output,
                    )
                    &&& step.from == Slot::Real ==> step.to == Slot::Destination && after.0.data@ == shown(
                        before.1.real_intermediate->0,
                    )
                    &&& step.from == Slot::Source || step.from == Slot::Real
                },
                Work::Exchange(index) => {
                    &&& index < crew.core.transitions@.len()
                    &&& step.from == Slot::Real ==> {
                        &&& before.1.real_intermediate is Some
                        &&& before.1.buffers.real_transpose is Some
                        &&& crew.real_exchange.ensures(
                            (
                                index,
                                moved_by(crew.core.transitions@[index as int], crew.direction),
                                (before.1.real_intermediate->0, before.1.buffers.real_transpose->0),
                            ),
                            ((after.1.real_intermediate->0, after.1.buffers.real_transpose->0), Ok(())),
                        )
                        &&& after.1.intermediate == before.1.intermediate
                    }
                    &&& step.from != Slot::Real ==> {
                        &&& crew.exchange.ensures(
                            (
                                index,
                                moved_by(crew.core.transitions@[index as int], crew.direction),
                                (before.1.intermediate, before.1.buffers.transpose),
                            ),
                            ((after.1.intermediate, after.1.buffers.transpose), Ok(())),
                        )
                        &&& after.1.real_intermediate == before.1.real_intermediate
                    }
                },
                Work::Validate => after == before && crew.inspector.finds(before.1.intermediate, Ok(())),
                Work::Clear => after.0 == before.0 && after.1.real_intermediate == before.1.real_intermediate
                    && crew.inspector.clears(before.1.intermediate, after.1.intermediate, Ok(())),
                _ => false,
            }
        }),
        step.to != Slot::Destination ==> after.0.data@ == before.0.data@,
{
    let entries = crew.core.entries(Direction::Inverse);
    match step.work {
        Work::Exchange(index) => {
            if step.from == Slot::Real {
                lemma_carried::<R, MixedError, XR, N, M>(
                    *crew.real_exchange,
                    crew.core.transitions@,
                    crew.direction,
                    index,
                    (before.1.real_intermediate->0, before.1.buffers.real_transpose->0),
                    (after.1.real_intermediate->0, after.1.buffers.real_transpose->0),
                );
            } else {
                lemma_carried::<Complex<R>, MixedError, XC, N, M>(
                    *crew.exchange,
                    crew.core.transitions@,
                    crew.direction,
                    index,
                    (before.1.intermediate, before.1.buffers.transpose),
                    (after.1.intermediate, after.1.buffers.transpose),
                );
            }
        },
        Work::Kernel(stage) => {
            let crossing = crew.core.spec_reverse_crossing(crew.crossing, before.1.buffers.real_line@.len() as usize);
            let tail = crew.core.spec_tail_station(Direction::Inverse, step, &crew.kernels@[stage as int]);
            let prefix = crew.core.spec_prefix_station(Direction::Inverse, step, &crew.prefixes@[stage as int]);
            if step.from == Slot::Complex && step.to != Slot::Complex {
                let from = shown(before.1.intermediate);
                if step.to == Slot::Destination {
                    law_mixed_reverse_crossing_goes_along::<R, FX, N, M>(crossing, from, before.0.data@, after.0.data@, before.1.buffers.complex_source_line@.len() as usize);
                } else {
                    let original = lemma_entered::<Complex<R>, R, MixedError, MixedReverseCrossing<FX, N, M>, N, M>(
                        crossing,
                        from,
                        before.1.real_intermediate->0,
                        after.1.real_intermediate->0,
                        entries.crossing,
                        before.1.buffers.complex_source_line@.len() as usize,
                    );
                    law_mixed_reverse_crossing_goes_along::<R, FX, N, M>(
                        crossing,
                        from,
                        original,
                        shown(after.1.real_intermediate->0),
                        before.1.buffers.complex_source_line@.len() as usize,
                    );
                }
            }
            if step.to == Slot::Complex {
                if step.from == Slot::Source {
                    let original = lemma_entered::<Complex<R>, Complex<R>, MixedError, MixedComplexStation<FC, N, M>, N, M>(
                        tail,
                        crew.source.data@,
                        before.1.intermediate,
                        after.1.intermediate,
                        entries.source,
                        before.1.buffers.complex_strided_line@.len() as usize,
                    );
                    law_mixed_station_goes_along(tail, crew.source.data@, original, shown(after.1.intermediate), before.1.buffers.complex_strided_line@.len() as usize);
                } else {
                    law_mixed_station_goes_along(
                        tail,
                        shown(before.1.intermediate),
                        shown(before.1.intermediate),
                        shown(after.1.intermediate),
                        before.1.buffers.complex_strided_line@.len() as usize,
                    );
                }
            }
            if step.from == Slot::Real {
                if step.to == Slot::Destination {
                    law_prefix_station_goes_along(
                        prefix,
                        shown(before.1.real_intermediate->0),
                        before.0.data@,
                        after.0.data@,
                        before.1.buffers.real_strided_line@.len() as usize,
                    );
                } else {
                    law_prefix_station_goes_along(
                        prefix,
                        shown(before.1.real_intermediate->0),
                        shown(before.1.real_intermediate->0),
                        shown(after.1.real_intermediate->0),
                        before.1.buffers.real_strided_line@.len() as usize,
                    );
                }
            }
        },
        Work::Copy => {
            if step.from == Slot::Source {
                let original = lemma_entered::<Complex<R>, Complex<R>, MixedError, CopyStation, N, M>(
                    CopyStation {  },
                    crew.source.data@,
                    before.1.intermediate,
                    after.1.intermediate,
                    entries.source,
                    before.1.buffers.complex_strided_line@.len() as usize,
                );
            }
        },
        _ => {},
    }
}

/// A step of a forward execution of a real-to-complex plan in place that succeeds: a kernel
/// step calls the kernel of its stage along the axis of the stage, and an exchange hands the
/// values to the exchange that was asked for, in the direction of the execution.
pub proof fn law_r2c_forward_step_in_place<R: FftReal, FX: Fn(&[R], usize) -> Result<Vec<Complex<R>>, LocalR2cError>, FC: Fn(&[Complex<R>], usize) -> Result<Vec<Complex<R>>, LocalC2cError>, XR: Fn(usize, Passage, Load<R, N, M>) -> (Load<R, N, M>, Result<(), FftError>), XC: Fn(usize, Passage, Load<Complex<R>, N, M>) -> (Load<Complex<R>, N, M>, Result<(), FftError>), const N: usize, const M: usize>(
    crew: R2cInPlaceForwardCrew<FX, FC, XR, XC, N, M>,
    step: Step,
    before: R2cInPlaceTask<R, N, M>,
    after: R2cInPlaceTask<R, N, M>,
)
    requires
        crew.does(step, before, after, Ok(())),
    ensures
        match step.work {
            Work::Kernel(stage) => {
                &&& step.from == Slot::Complex && step.to == Slot::Complex ==> {
                    &&& before.0.shared.storage matches Some(HalfComplexStorage::Complex(values))
                    &&& after.0.shared.storage matches Some(HalfComplexStorage::Complex(worked))
                    &&& stage < crew.core.stages@.len()
                    &&& values.active is Some ==> tail_worked(
                        crew.kernels@[stage as int],
                        crew.core.locals@[stage as int],
                        worked_in(crew.core.stages@[stage as int], Direction::Forward).stride_along(
                                crew.core.stages@[stage as int].axis as int,
                            ),
                        shown(values),
                        shown(worked),
                    )
                }
            },
            Work::Exchange(index) => {
                &&& index < crew.core.transitions@.len()
                &&& match before.0.shared.storage {
                    Some(HalfComplexStorage::Real(array)) => {
                        &&& step.from == Slot::Real
                        &&& before.1.real_transpose is Some
                        &&& after.0.shared.storage matches Some(HalfComplexStorage::Real(moved))
                        &&& crew.real_exchange.ensures(
                            (
                                index,
                                moved_by(crew.core.transitions@[index as int], Direction::Forward),
                                (array, before.1.real_transpose->0),
                            ),
                            ((moved, after.1.real_transpose->0), Ok(())),
                        )
                    },
                    Some(HalfComplexStorage::Complex(array)) => {
                        &&& step.from == Slot::Complex
                        &&& after.0.shared.storage matches Some(HalfComplexStorage::Complex(moved))
                        &&& crew.exchange.ensures(
                            (
                                index,
                                moved_by(crew.core.transitions@[index as int], Direction::Forward),
                                (array, before.1.transpose),
                            ),
                            ((moved, after.1.transpose), Ok(())),
                        )
                    },
                    _ => false,
                }
            },
            Work::Copy => false,
            _ => true,
        },
{
    match step.work {
        Work::Exchange(index) => {
            match (before.0.shared.storage, after.0.shared.storage) {
                (Some(HalfComplexStorage::Real(array)), Some(HalfComplexStorage::Real(moved))) => {
                    lemma_carried::<R, R2cError, XR, N, M>(
                        *crew.real_exchange,
                        crew.core.transitions@,
                        Direction::Forward,
                        index,
                        (array, before.1.real_transpose->0),
                        (moved, after.1.real_transpose->0),
                    );
                },
                (Some(HalfComplexStorage::Complex(array)), Some(HalfComplexStorage::Complex(moved))) => {
                    lemma_carried::<Complex<R>, R2cError, XC, N, M>(
                        *crew.exchange,
                        crew.core.transitions@,
                        Direction::Forward,
                        index,
                        (array, before.1.transpose),
                        (moved, after.1.transpose),
                    );
                },
                _ => {},
            }
        },
        Work::Kernel(stage) => {
            if step.from == Slot::Complex && step.to == Slot::Complex {
                if let (Some(HalfComplexStorage::Complex(values)), Some(HalfComplexStorage::Complex(worked))) = (
                    before.0.shared.storage,
                    after.0.shared.storage,
                ) {
                    if values.active is Some {
                        law_tail_station_goes_along(
                            crew.core.spec_tail_station(Direction::Forward, step, &crew.kernels@[stage as int]),
                            shown(values),
                            shown(values),
                            shown(worked),
                            before.1.complex_strided_line@.len() as usize,
                        );
                    }
                }
            }
        },
        _ => {},
    }
}

/// A step of a reverse execution of a real-to-complex plan in place that succeeds: a kernel
/// step calls the kernel of its stage along the axis of the stage, and an exchange hands the
/// values to the exchange that was asked for, in the direction of the execution.
pub proof fn law_r2c_reverse_step_in_place<R: FftReal, FX: Fn(&[Complex<R>], usize) -> Result<Vec<R>, LocalR2cError>, FC: Fn(&[Complex<R>], usize) -> Result<Vec<Complex<R>>, LocalC2cError>, XR: Fn(usize, Passage, Load<R, N, M>) -> (Load<R, N, M>, Result<(), FftError>), XC: Fn(usize, Passage, Load<Complex<R>, N, M>) -> (Load<Complex<R>, N, M>, Result<(), FftError>), V: Inspector<R, R2cError, N, M>, const N: usize, const M: usize>(
    crew: R2cInPlaceReverseCrew<FX, FC, XR, XC, V, N, M>,
    step: Step,
    before: R2cInPlaceTask<R, N, M>,
    after: R2cInPlaceTask<R, N, M>,
)
    requires
        crew.does(step, before, after, Ok(())),
    ensures
        match step.work {
            Work::Kernel(stage) => {
                &&& step.from == Slot::Complex && step.to == Slot::Complex ==> {
                    &&& before.0.shared.storage matches Some(HalfComplexStorage::Complex(values))
                    &&& after.0.shared.storage matches Some(HalfComplexStorage::Complex(worked))
                    &&& stage < crew.core.stages@.len()
                    &&& values.active is Some ==> tail_worked(
                        crew.kernels@[stage as int],
                        crew.core.locals@[stage as int],
                        worked_in(crew.core.stages@[stage as int], crew.direction).stride_along(
                                crew.core.stages@[stage as int].axis as int,
                            ),
                        shown(values),
                        shown(worked),
                    )
                }
            },
            Work::Exchange(index) => {
                &&& index < crew.core.transitions@.len()
                &&& match before.0.shared.storage {
                    Some(HalfComplexStorage::Real(array)) => {
                        &&& step.from == Slot::Real
                        &&& before.1.real_transpose is Some
                        &&& after.0.shared.storage matches Some(HalfComplexStorage::Real(moved))
                        &&& crew.real_exchange.ensures(
                            (
                                index,
                                moved_by(crew.core.transitions@[index as int], crew.direction),
                                (array, before.1.real_transpose->0),
                            ),
                            ((moved, after.1.real_transpose->0), Ok(())),
                        )
                    },
                    Some(HalfComplexStorage::Complex(array)) => {
                        &&& step.from == Slot::Complex
                        &&& after.0.shared.storage matches Some(HalfComplexStorage::Complex(moved))
                        &&& crew.exchange.ensures(
                            (
                                index,
                                moved_by(crew.core.transitions@[index as int], crew.direction),
                                (array, before.1.transpose),
                            ),
                            ((moved, after.1.transpose), Ok(())),
                        )
                    },
                    _ => false,
                }
            },
            Work::Validate => {
                &&& after == before
                &&& before.0.shared.storage matches Some(HalfComplexStorage::Complex(values))
                &&& crew.inspector.finds(values, Ok(()))
            },
            Work::Clear => {
                &&& before.0.shared.storage matches Some(HalfComplexStorage::Complex(values))
                &&& after.0.shared.storage matches Some(HalfComplexStorage::Complex(cleared))
                &&& crew.inspector.clears(values, cleared, Ok(()))
            },
            Work::Copy => false,
            _ => true,
        },
{
    match step.work {
        Work::Exchange(index) => {
            match (before.0.shared.storage, after.0.shared.storage) {
                (Some(HalfComplexStorage::Real(array)), Some(HalfComplexStorage::Real(moved))) => {
                    lemma_carried::<R, R2cError, XR, N, M>(
                        *crew.real_exchange,
                        crew.core.transitions@,
                        crew.direction,
                        index,
                        (array, before.1.real_transpose->0),
                        (moved, after.1.real_transpose->0),
                    );
                },
                (Some(HalfComplexStorage::Complex(array)), Some(HalfComplexStorage::Complex(moved))) => {
                    lemma_carried::<Complex<R>, R2cError, XC, N, M>(
                        *crew.exchange,
                        crew.core.transitions@,
                        crew.direction,
                        index,
                        (array, before.1.transpose),
                        (moved, after.1.transpose),
                    );
                },
                _ => {},
            }
        },
        Work::Kernel(stage) => {
            if step.from == Slot::Complex && step.to == Slot::Complex {
                if let (Some(HalfComplexStorage::Complex(values)), Some(HalfComplexStorage::Complex(worked))) = (
                    before.0.shared.storage,
                    after.0.shared.storage,
                ) {
                    if values.active is Some {
                        law_tail_station_goes_along(
                            crew.core.spec_tail_station(crew.direction, step, &crew.kernels@[stage as int]),
                            shown(values),
                            shown(values),
                            shown(worked),
                            before.1.complex_strided_line@.len() as usize,
                        );
                    }
                }
            }
        },
        _ => {},
    }
}

/// A step of a forward execution of a mixed real-to-complex plan in place that succeeds: a
/// kernel step calls the kernel of its stage along the axis of the stage, and an exchange hands
/// the values to the exchange that was asked for, in the direction of the execution.
pub proof fn law_mixed_r2c_forward_step_in_place<R: FftReal, FR: Fn(&[R], usize) -> Result<Vec<R>, LocalError>, FX: Fn(&[R], usize) -> Result<Vec<Complex<R>>, LocalError>, FC: Fn(&[Complex<R>], usize) -> Result<Vec<Complex<R>>, LocalError>, XR: Fn(usize, Passage, Load<R, N, M>) -> (Load<R, N, M>, Result<(), FftError>), XC: Fn(usize, Passage, Load<Complex<R>, N, M>) -> (Load<Complex<R>, N, M>, Result<(), FftError>), const N: usize, const M: usize>(
    crew: MixedR2cInPlaceForwardCrew<FR, FX, FC, XR, XC, N, M>,
    step: Step,
    before: MixedR2cInPlaceTask<R, N, M>,
    after: MixedR2cInPlaceTask<R, N, M>,
)
    requires
        crew.does(step, before, after, Ok(())),
    ensures
        match step.work {
            Work::Kernel(stage) => {
                &&& step.from == Slot::Complex && step.to == Slot::Complex && crew.core.locals@[stage as int] is Complex ==> {
                    &&& before.0.shared.storage matches Some(HalfComplexStorage::Complex(values))
                    &&& after.0.shared.storage matches Some(HalfComplexStorage::Complex(worked))
                    &&& stage < crew.core.stages@.len()
                    &&& values.active is Some ==> mixed_worked(
                        crew.kernels@[stage as int],
                        crew.core.locals@[stage as int]->Complex_0,
                        worked_in(crew.core.stages@[stage as int], Direction::Forward).stride_along(
                                crew.core.stages@[stage as int].axis as int,
                            ),
                        shown(values),
                        shown(worked),
                    )
                }
                &&& step.from == Slot::Real && step.to == Slot::Real && crew.core.locals@[stage as int] is Real ==> {
                    &&& before.0.shared.storage matches Some(HalfComplexStorage::Real(values))
                    &&& after.0.shared.storage matches Some(HalfComplexStorage::Real(worked))
                    &&& stage < crew.core.stages@.len()
                    &&& values.active is Some ==> prefix_worked(
                        crew.prefixes@[stage as int],
                        crew.core.locals@[stage as int]->Real_0,
                        worked_in(crew.core.stages@[stage as int], Direction::Forward).stride_along(
                                crew.core.stages@[stage as int].axis as int,
                            ),
                        shown(values),
                        shown(worked),
                    )
                }
            },
            Work::Exchange(index) => {
                &&& index < crew.core.transitions@.len()
                &&& match before.0.shared.storage {
                    Some(HalfComplexStorage::Real(array)) => {
                        &&& step.from == Slot::Real
                        &&& before.1.buffers.real_transpose is Some
                        &&& after.0.shared.storage matches Some(HalfComplexStorage::Real(moved))
                        &&& crew.real_exchange.ensures(
                            (
                                index,
                                moved_by(crew.core.transitions@[index as int], Direction::Forward),
                                (array, before.1.buffers.real_transpose->0),
                            ),
                            ((moved, after.1.buffers.real_transpose->0), Ok(())),
                        )
                    },
                    Some(HalfComplexStorage::Complex(array)) => {
                        &&& step.from == Slot::Complex
                        &&& after.0.shared.storage matches Some(HalfComplexStorage::Complex(moved))
                        &&& crew.exchange.ensures(
                            (
                                index,
                                moved_by(crew.core.transitions@[index as int], Direction::Forward),
                                (array, before.1.buffers.transpose),
                            ),
                            ((moved, after.1.buffers.transpose), Ok(())),
                        )
                    },
                    _ => false,
                }
            },
            Work::Copy => false,
            _ => true,
        },
{
    match step.work {
        Work::Exchange(index) => {
            match (before.0.shared.storage, after.0.shared.storage) {
                (Some(HalfComplexStorage::Real(array)), Some(HalfComplexStorage::Real(moved))) => {
                    lemma_carried::<R, MixedError, XR, N, M>(
                        *crew.real_exchange,
                        crew.core.transitions@,
                        Direction::Forward,
                        index,
                        (array, before.1.buffers.real_transpose->0),
                        (moved, after.1.buffers.real_transpose->0),
                    );
                },
                (Some(HalfComplexStorage::Complex(array)), Some(HalfComplexStorage::Complex(moved))) => {
                    lemma_carried::<Complex<R>, MixedError, XC, N, M>(
                        *crew.exchange,
                        crew.core.transitions@,
                        Direction::Forward,
                        index,
                        (array, before.1.buffers.transpose),
                        (moved, after.1.buffers.transpose),
                    );
                },
                _ => {},
            }
        },
        Work::Kernel(stage) => {
            if step.from == Slot::Complex && step.to == Slot::Complex {
                if let (Some(HalfComplexStorage::Complex(values)), Some(HalfComplexStorage::Complex(worked))) = (
                    before.0.shared.storage,
                    after.0.shared.storage,
                ) {
                    if values.active is Some {
                        law_mixed_station_goes_along(
                            crew.core.spec_tail_station(Direction::Forward, step, &crew.kernels@[stage as int]),
                            shown(values),
                            shown(values),
                            shown(worked),
                            before.1.buffers.complex_strided_line@.len() as usize,
                        );
                    }
                }
            }
            if step.from == Slot::Real && step.to == Slot::Real {
                if let (Some(HalfComplexStorage::Real(values)), Some(HalfComplexStorage::Real(worked))) = (
                    before.0.shared.storage,
                    after.0.shared.storage,
                ) {
                    if values.active is Some {
                        law_prefix_station_goes_along(
                            crew.core.spec_prefix_station(Direction::Forward, step, &crew.prefixes@[stage as int]),
                            shown(values),
                            shown(values),
                            shown(worked),
                            before.1.buffers.real_strided_line@.len() as usize,
                        );
                    }
                }
            }
        },
        _ => {},
    }
}

/// A step of a reverse execution of a mixed real-to-complex plan in place that succeeds: a
/// kernel step calls the kernel of its stage along the axis of the stage, and an exchange hands
/// the values to the exchange that was asked for, in the direction of the execution.
pub proof fn law_mixed_r2c_reverse_step_in_place<R: FftReal, FR: Fn(&[R], usize) -> Result<Vec<R>, LocalError>, FX: Fn(&[Complex<R>], usize) -> Result<Vec<R>, LocalError>, FC: Fn(&[Complex<R>], usize) -> Result<Vec<Complex<R>>, LocalError>, XR: Fn(usize, Passage, Load<R, N, M>) -> (Load<R, N, M>, Result<(), FftError>), XC: Fn(usize, Passage, Load<Complex<R>, N, M>) -> (Load<Complex<R>, N, M>, Result<(), FftError>), V: Inspector<R, MixedError, N, M>, const N: usize, const M: usize>(
    crew: MixedR2cInPlaceReverseCrew<FR, FX, FC, XR, XC, V, N, M>,
    step: Step,
    before: MixedR2cInPlaceTask<R, N, M>,
    after: MixedR2cInPlaceTask<R, N, M>,
)
    requires
        crew.does(step, before, after, Ok(())),
    ensures
        match step.work {
            Work::Kernel(stage) => {
                &&& step.from == Slot::Complex && step.to == Slot::Complex && crew.core.locals@[stage as int] is Complex ==> {
                    &&& before.0.shared.storage matches Some(HalfComplexStorage::Complex(values))
                    &&& after.0.shared.storage matches Some(HalfComplexStorage::Complex(worked))
                    &&& stage < crew.core.stages@.len()
                    &&& values.active is Some ==> mixed_worked(
                        crew.kernels@[stage as int],
                        crew.core.locals@[stage as int]->Complex_0,
                        worked_in(crew.core.stages@[stage as int], crew.direction).stride_along(
                                crew.core.stages@[stage as int].axis as int,
                            ),
                        shown(values),
                        shown(worked),
                    )
                }
                &&& step.from == Slot::Real && step.to == Slot::Real && crew.core.locals@[stage as int] is Real ==> {
                    &&& before.0.shared.storage matches Some(HalfComplexStorage::Real(values))
                    &&& after.0.shared.storage matches Some(HalfComplexStorage::Real(worked))
                    &&& stage < crew.core.stages@.len()
                    &&& values.active is Some ==> prefix_worked(
                        crew.prefixes@[stage as int],
                        crew.core.locals@[stage as int]->Real_0,
                        worked_in(crew.core.stages@[stage as int], crew.direction).stride_along(
                                crew.core.stages@[stage as int].axis as int,
                            ),
                        shown(values),
                        shown(worked),
                    )
                }
            },
            Work::Exchange(index) => {
                &&& index < crew.core.transitions@.len()
                &&& match before.0.shared.storage {
                    Some(HalfComplexStorage::Real(array)) => {
                        &&& step.from == Slot::Real
                        &&& before.1.buffers.real_transpose is Some
                        &&& after.0.shared.storage matches Some(HalfComplexStorage::Real(moved))
                        &&& crew.real_exchange.ensures(
                            (
                                index,
                                moved_by(crew.core.transitions@[index as int], crew.direction),
                                (array, before.1.buffers.real_transpose->0),
                            ),
                            ((moved, after.1.buffers.real_transpose->0), Ok(())),
                        )
                    },
                    Some(HalfComplexStorage::Complex(array)) => {
                        &&& step.from == Slot::Complex
                        &&& after.0.shared.storage matches Some(HalfComplexStorage::Complex(moved))
                        &&& crew.exchange.ensures(
                            (
                                index,
                                moved_by(crew.core.transitions@[index as int], crew.direction),
                                (array, before.1.buffers.transpose),
                            ),
                            ((moved, after.1.buffers.transpose), Ok(())),
                        )
                    },
                    _ => false,
                }
            },
            Work::Validate => {
                &&& after == before
                &&& before.0.shared.storage matches Some(HalfComplexStorage::Complex(values))
                &&& crew.inspector.finds(values, Ok(()))
            },
            Work::Clear => {
                &&& before.0.shared.storage matches Some(HalfComplexStorage::Complex(values))
                &&& after.0.shared.storage matches Some(HalfComplexStorage::Complex(cleared))
                &&& crew.inspector.clears(values, cleared, Ok(()))
            },
            Work::Copy => false,
            _ => true,
        },
{
    match step.work {
        Work::Exchange(index) => {
            match (before.0.shared.storage, after.0.shared.storage) {
                (Some(HalfComplexStorage::Real(array)), Some(HalfComplexStorage::Real(moved))) => {
                    lemma_carried::<R, MixedError, XR, N, M>(
                        *crew.real_exchange,
                        crew.core.transitions@,
                        crew.direction,
                        index,
                        (array, before.1.buffers.real_transpose->0),
                        (moved, after.1.buffers.real_transpose->0),
                    );
                },
                (Some(HalfComplexStorage::Complex(array)), Some(HalfComplexStorage::Complex(moved))) => {
                    lemma_carried::<Complex<R>, MixedError, XC, N, M>(
                        *crew.exchange,
                        crew.core.transitions@,
                        crew.direction,
                        index,
                        (array, before.1.buffers.transpose),
                        (moved, after.1.buffers.transpose),
                    );
                },
                _ => {},
            }
        },
        Work::Kernel(stage) => {
            if step.from == Slot::Complex && step.to == Slot::Complex {
                if let (Some(HalfComplexStorage::Complex(values)), Some(HalfComplexStorage::Complex(worked))) = (
                    before.0.shared.storage,
                    after.0.shared.storage,
                ) {
                    if values.active is Some {
                        law_mixed_station_goes_along(
                            crew.core.spec_tail_station(crew.direction, step, &crew.kernels@[stage as int]),
                            shown(values),
                            shown(values),
                            shown(worked),
                            before.1.buffers.complex_strided_line@.len() as usize,
                        );
                    }
                }
            }
            if step.from == Slot::Real && step.to == Slot::Real {
                if let (Some(HalfComplexStorage::Real(values)), Some(HalfComplexStorage::Real(worked))) = (
                    before.0.shared.storage,
                    after.0.shared.storage,
                ) {
                    if values.active is Some {
                        law_prefix_station_goes_along(
                            crew.core.spec_prefix_station(crew.direction, step, &crew.prefixes@[stage as int]),
                            shown(values),
                            shown(values),
                            shown(worked),
                            before.1.buffers.real_strided_line@.len() as usize,
                        );
                    }
                }
            }
        },
        _ => {},
    }
}

/// Handing real values over to complex ones in the allocation of a real-to-complex plan
/// turns each line along the axis of the boundary into what the kernel gives for it, where the
/// allocation holds all lines.
pub proof fn law_r2c_real_handoff<R: FftReal, F: Fn(&[R], usize) -> Result<Vec<Complex<R>>, LocalR2cError>, const N: usize, const M: usize>(
    kernel: F,
    boundary: Boundary<N, M>,
    buffers: LineBuffers,
    before: SharedStorage<R, N, M>,
    after: SharedStorage<R, N, M>,
    source: ManyPencilArray<R, N, M>,
    rows: int,
    lanes_beside: int,
)
    requires
        real_handed_over::<R, F, N, M>(
            kernel,
            boundary,
            buffers,
            before,
            after,
            Ok(()),
        ),
        before.storage == Some(HalfComplexStorage::Real(source)),
        before.real_storage_len == source.storage@.len(),
        rows == boundary.stage.input.local_len as int / boundary.plan.real_len as int * boundary.extra,
        rows * boundary.plan.real_len <= source.storage@.len(),
        after.storage matches Some(HalfComplexStorage::Complex(target)) ==> rows * boundary.plan.complex_len <= target.storage@.len(),
        lanes_beside == match boundary.stage.input.stride_along(boundary.stage.axis as int) {
            Some(stride) => if stride > 1 {
                stride as int
            } else {
                1
            },
            None => 1,
        },
    ensures
        after.storage is Some,
        after.storage->0 is Complex,
        after.real_pencils == Some(source.pencils),
        before.complex_pencils == Some(after.storage->0->Complex_0.pencils),
        after.storage->0->Complex_0.active is Some,
        forall|row: int, lane: int|
            0 <= row < rows / lanes_beside && 0 <= lane < lanes_beside ==> called::<R, Complex<R>, LocalR2cError, F>(
                kernel,
                #[trigger] lane_of(source.storage@, row, lane, boundary.plan.real_len as int, lanes_beside),
                lane_of(
                    after.storage->0->Complex_0.storage@,
                    row,
                    lane,
                    boundary.plan.complex_len as int,
                    lanes_beside,
                ),
            ),
{
    let target = after.storage->0->Complex_0;
    assert forall|row: int, lane: int| 0 <= row < rows / lanes_beside && 0 <= lane < lanes_beside implies called::<R, Complex<R>, LocalR2cError, F>(
        kernel,
        #[trigger] lane_of(source.storage@, row, lane, boundary.plan.real_len as int, lanes_beside),
        lane_of(target.storage@, row, lane, boundary.plan.complex_len as int, lanes_beside),
    ) by {
        lemma_lane(source.storage@, row, lane, boundary.plan.real_len as int, lanes_beside);
        lemma_lane(target.storage@, row, lane, boundary.plan.complex_len as int, lanes_beside);
        let from = line_at(source.storage@, row, lane, boundary.plan.real_len as nat, lanes_beside);
        let to = line_at(target.storage@, row, lane, boundary.plan.complex_len as nat, lanes_beside);
        assert(line_maps::<R, Complex<R>, LocalR2cError, F>(kernel, from, to));
        lemma_called::<R, Complex<R>, LocalR2cError, F>(kernel, from, to);
    }
}

/// Handing complex values over to real ones in the allocation of a real-to-complex plan
/// turns each line along the axis of the boundary into what the kernel gives for it, where the
/// allocation holds all lines.
pub proof fn law_r2c_complex_handoff<R: FftReal, F: Fn(&[Complex<R>], usize) -> Result<Vec<R>, LocalR2cError>, const N: usize, const M: usize>(
    kernel: F,
    boundary: Boundary<N, M>,
    buffers: LineBuffers,
    before: SharedStorage<R, N, M>,
    after: SharedStorage<R, N, M>,
    source: ManyPencilArray<Complex<R>, N, M>,
    rows: int,
    lanes_beside: int,
)
    requires
        complex_handed_over::<R, F, N, M>(
            kernel,
            boundary,
            buffers,
            before,
            after,
            Ok(()),
        ),
        before.storage == Some(HalfComplexStorage::Complex(source)),
        before.complex_storage_len == source.storage@.len(),
        rows == boundary.stage.input.local_len as int / boundary.plan.real_len as int * boundary.extra,
        rows * boundary.plan.complex_len <= source.storage@.len(),
        after.storage matches Some(HalfComplexStorage::Real(target)) ==> rows * boundary.plan.real_len <= target.storage@.len(),
        lanes_beside == match boundary.stage.output.stride_along(boundary.stage.axis as int) {
            Some(stride) => if stride > 1 {
                stride as int
            } else {
                1
            },
            None => 1,
        },
    ensures
        after.storage is Some,
        after.storage->0 is Real,
        after.complex_pencils == Some(source.pencils),
        before.real_pencils == Some(after.storage->0->Real_0.pencils),
        after.storage->0->Real_0.active is Some,
        forall|row: int, lane: int|
            0 <= row < rows / lanes_beside && 0 <= lane < lanes_beside ==> called::<Complex<R>, R, LocalR2cError, F>(
                kernel,
                #[trigger] lane_of(source.storage@, row, lane, boundary.plan.complex_len as int, lanes_beside),
                lane_of(
                    after.storage->0->Real_0.storage@,
                    row,
                    lane,
                    boundary.plan.real_len as int,
                    lanes_beside,
                ),
            ),
{
    let target = after.storage->0->Real_0;
    assert forall|row: int, lane: int| 0 <= row < rows / lanes_beside && 0 <= lane < lanes_beside implies called::<Complex<R>, R, LocalR2cError, F>(
        kernel,
        #[trigger] lane_of(source.storage@, row, lane, boundary.plan.complex_len as int, lanes_beside),
        lane_of(target.storage@, row, lane, boundary.plan.real_len as int, lanes_beside),
    ) by {
        lemma_lane(source.storage@, row, lane, boundary.plan.complex_len as int, lanes_beside);
        lemma_lane(target.storage@, row, lane, boundary.plan.real_len as int, lanes_beside);
        let from = line_at(source.storage@, row, lane, boundary.plan.complex_len as nat, lanes_beside);
        let to = line_at(target.storage@, row, lane, boundary.plan.real_len as nat, lanes_beside);
        assert(line_maps::<Complex<R>, R, LocalR2cError, F>(kernel, from, to));
        lemma_called::<Complex<R>, R, LocalR2cError, F>(kernel, from, to);
    }
}

/// Handing real values over to complex ones in the allocation of a mixed real-to-complex plan
/// turns each line along the axis of the boundary into what the kernel gives for it, where the
/// allocation holds all lines.
pub proof fn law_mixed_r2c_real_handoff<R: FftReal, F: Fn(&[R], usize) -> Result<Vec<Complex<R>>, LocalError>, const N: usize, const M: usize>(
    kernel: F,
    boundary: Boundary<N, M>,
    extra_shape: ExtraShape,
    buffers: LineBuffers,
    before: SharedStorage<R, N, M>,
    after: SharedStorage<R, N, M>,
    source: ManyPencilArray<R, N, M>,
    rows: int,
    lanes_beside: int,
)
    requires
        mixed_real_handed_over::<R, F, N, M>(
            kernel,
            boundary,
            extra_shape,
            buffers,
            before,
            after,
            Ok(()),
        ),
        before.storage == Some(HalfComplexStorage::Real(source)),
        before.real_storage_len == source.storage@.len(),
        rows == boundary.stage.input.local_len as int / boundary.plan.real_len as int * boundary.extra,
        rows * boundary.plan.real_len <= source.storage@.len(),
        after.storage matches Some(HalfComplexStorage::Complex(target)) ==> rows * boundary.plan.complex_len <= target.storage@.len(),
        lanes_beside == match boundary.stage.input.stride_along(boundary.stage.axis as int) {
            Some(stride) => if stride > 1 {
                stride as int
            } else {
                1
            },
            None => 1,
        },
    ensures
        after.storage is Some,
        after.storage->0 is Complex,
        after.real_pencils == Some(source.pencils),
        before.complex_pencils == Some(after.storage->0->Complex_0.pencils),
        after.storage->0->Complex_0.active is Some,
        forall|row: int, lane: int|
            0 <= row < rows / lanes_beside && 0 <= lane < lanes_beside ==> called::<R, Complex<R>, LocalError, F>(
                kernel,
                #[trigger] lane_of(source.storage@, row, lane, boundary.plan.real_len as int, lanes_beside),
                lane_of(
                    after.storage->0->Complex_0.storage@,
                    row,
                    lane,
                    boundary.plan.complex_len as int,
                    lanes_beside,
                ),
            ),
{
    let target = after.storage->0->Complex_0;
    assert forall|row: int, lane: int| 0 <= row < rows / lanes_beside && 0 <= lane < lanes_beside implies called::<R, Complex<R>, LocalError, F>(
        kernel,
        #[trigger] lane_of(source.storage@, row, lane, boundary.plan.real_len as int, lanes_beside),
        lane_of(target.storage@, row, lane, boundary.plan.complex_len as int, lanes_beside),
    ) by {
        lemma_lane(source.storage@, row, lane, boundary.plan.real_len as int, lanes_beside);
        lemma_lane(target.storage@, row, lane, boundary.plan.complex_len as int, lanes_beside);
        let from = line_at(source.storage@, row, lane, boundary.plan.real_len as nat, lanes_beside);
        let to = line_at(target.storage@, row, lane, boundary.plan.complex_len as nat, lanes_beside);
        assert(line_maps::<R, Complex<R>, LocalError, F>(kernel, from, to));
        lemma_called::<R, Complex<R>, LocalError, F>(kernel, from, to);
    }
}

/// Handing complex values over to real ones in the allocation of a mixed real-to-complex plan
/// turns each line along the axis of the boundary into what the kernel gives for it, where the
/// allocation holds all lines.
pub proof fn law_mixed_r2c_complex_handoff<R: FftReal, F: Fn(&[Complex<R>], usize) -> Result<Vec<R>, LocalError>, const N: usize, const M: usize>(
    kernel: F,
    boundary: Boundary<N, M>,
    extra_shape: ExtraShape,
    buffers: LineBuffers,
    before: SharedStorage<R, N, M>,
    after: SharedStorage<R, N, M>,
    source: ManyPencilArray<Complex<R>, N, M>,
    rows: int,
    lanes_beside: int,
)
    requires
        mixed_complex_handed_over::<R, F, N, M>(
            kernel,
            boundary,
            extra_shape,
            buffers,
            before,
            after,
            Ok(()),
        ),
        before.storage == Some(HalfComplexStorage::Complex(source)),
        before.complex_storage_len == source.storage@.len(),
        rows == boundary.stage.output.local_len as int / boundary.plan.complex_len as int * boundary.extra,
        rows * boundary.plan.complex_len <= source.storage@.len(),
        after.storage matches Some(HalfComplexStorage::Real(target)) ==> rows * boundary.plan.real_len <= target.storage@.len(),
        lanes_beside == match boundary.stage.output.stride_along(boundary.stage.axis as int) {
            Some(stride) => if stride > 1 {
                stride as int
            } else {
                1
            },
            None => 1,
        },
    ensures
        after.storage is Some,
        after.storage->0 is Real,
        after.complex_pencils == Some(source.pencils),
        before.real_pencils == Some(after.storage->0->Real_0.pencils),
        after.storage->0->Real_0.active is Some,
        forall|row: int, lane: int|
            0 <= row < rows / lanes_beside && 0 <= lane < lanes_beside ==> called::<Complex<R>, R, LocalError, F>(
                kernel,
                #[trigger] lane_of(source.storage@, row, lane, boundary.plan.complex_len as int, lanes_beside),
                lane_of(
                    after.storage->0->Real_0.storage@,
                    row,
                    lane,
                    boundary.plan.real_len as int,
                    lanes_beside,
                ),
            ),
{
    let target = after.storage->0->Real_0;
    assert forall|row: int, lane: int| 0 <= row < rows / lanes_beside && 0 <= lane < lanes_beside implies called::<Complex<R>, R, LocalError, F>(
        kernel,
        #[trigger] lane_of(source.storage@, row, lane, boundary.plan.complex_len as int, lanes_beside),
        lane_of(target.storage@, row, lane, boundary.plan.real_len as int, lanes_beside),
    ) by {
        lemma_lane(source.storage@, row, lane, boundary.plan.complex_len as int, lanes_beside);
        lemma_lane(target.storage@, row, lane, boundary.plan.real_len as int, lanes_beside);
        let from = line_at(source.storage@, row, lane, boundary.plan.complex_len as nat, lanes_beside);
        let to = line_at(target.storage@, row, lane, boundary.plan.real_len as nat, lanes_beside);
        assert(line_maps::<Complex<R>, R, LocalError, F>(kernel, from, to));
        lemma_called::<Complex<R>, R, LocalError, F>(kernel, from, to);
    }
}

} // verus!
