//! When an execution of a real-to-complex plan is owed to succeed.

use vstd::prelude::*;

use crate::carrier::Load;
use crate::course::Place;
use crate::course::checks_pass;
use crate::course::is_check;
use crate::course::keeps_course;
use crate::course::keeps_course_checked;
use crate::course::led;
use crate::course::lemma_checked_course_holds;
use crate::course::lemma_course_holds;
use crate::course::lemma_overlap_checked_course_holds;
use crate::course::lemma_overlap_course_holds;
use crate::course::next_place;
use crate::course::on_course;
use crate::course::reached_inside;
use crate::course::stays_outside;
use crate::crew::Crew;
use crate::crew::InTurn;
use crate::crew::OverlapCrew;
use crate::crew::Overlapped;
use crate::crew_r2c::R2cForwardCrew;
use crate::crew_r2c::R2cForwardOverlapCrew;
use crate::crew_r2c::R2cForwardTask;
use crate::crew_r2c::R2cReverseCrew;
use crate::crew_r2c::R2cReverseOverlapCrew;
use crate::crew_r2c::R2cReverseTask;
use crate::crew_r2c::half_frame;
use crate::crew_r2c::half_load;
use crate::crew_r2c::overwritten_inside;
use crate::crew_r2c::spoiled;
use crate::error::FftError;
use crate::error::FftOverlapError;
use crate::error::LocalC2cError;
use crate::error::LocalR2cError;
use crate::error::OverlapError;
use crate::error::R2cError;
use crate::half_carrier::half_part_done;
use crate::holds::accepts;
use crate::holds::in_order;
use crate::holds::leads_on;
use crate::holds::lemma_copy_holds;
use crate::holds::lemma_sweep_holds;
use crate::holds::parts_lead_on;
use crate::holds::registered;
use crate::holds::station_holds;
use crate::holds::sweep_fits;
use crate::holds_half::boundary_resizes;
use crate::holds_half::complex_elements;
use crate::holds_half::half_entries;
use crate::holds_half::half_lies;
use crate::holds_half::lemma_forward_holds;
use crate::holds_half::lemma_half_carried_holds;
use crate::holds_half::lemma_half_part_lands;
use crate::holds_half::lemma_half_part_settles;
use crate::holds_half::lemma_reverse_holds;
use crate::holds_half::real_elements;
use crate::inspect::Inspector;
use crate::kernels::ComplexStation;
use crate::kernels::ForwardCrossing;
use crate::kernels::ReverseCrossing;
use crate::kernels::complex_done;
use crate::layout::Direction;
use crate::local::LocalTransform;
use crate::perform::HalfLens;
use crate::r2c::R2cWorkspace;
use crate::r2c::TransformPlanCore;
use crate::registry::inputs_of;
use crate::registry::outputs_of;
use crate::round_shared::clearing_stays;
use crate::run::Launch;
use crate::run::OverlapLaunch;
use crate::run::executed;
use crate::run::executed_overlapped;
use crate::run::steps_run;
use crate::scalar::Complex;
use crate::scalar::FftReal;
use crate::schedule::Mode;
use crate::schedule::Slot;
use crate::schedule::Step;
use crate::schedule::Work;
use crate::stages::as_c2c_sweep;
use crate::stages::as_r2c_sweep;
use crate::stages::boundary_forward_lens;
use crate::stages::boundary_reverse_lens;
use crate::stages::complex_lens;
use crate::station::CopyStation;
use crate::station::Station;
use crate::success::law_execution_succeeds;
use crate::success::law_overlapped_execution_succeeds;
use crate::success::ready;
use crate::success::ready_overlapped;
use crate::transition::Passage;
use crate::walk::encloses;
use crate::walk::ran_overlapped;
use crate::world::lifted;

verus! {

/// Elements of the line buffers of a forward execution, and of the one for a result line.
pub open spec fn r2c_lens_there<R: FftReal, const N: usize, const M: usize>(
    workspace: R2cWorkspace<R, N, M>,
) -> (HalfLens, usize) {
    let lens = HalfLens {
        crossing: match workspace.real_source_line {
            Some(line) => line@.len() as usize,
            None => 0,
        },
        reals: workspace.real_line@.len() as usize,
        complexes: workspace.complex_strided_line@.len() as usize,
    };
    (lens, workspace.complex_line@.len() as usize)
}

/// Elements of the line buffers of a reverse execution, and of the one for a result line.
pub open spec fn r2c_lens_home<R: FftReal, const N: usize, const M: usize>(
    workspace: R2cWorkspace<R, N, M>,
) -> (HalfLens, usize) {
    let lens = HalfLens {
        crossing: workspace.complex_strided_line@.len() as usize,
        reals: workspace.real_line@.len() as usize,
        complexes: workspace.complex_strided_line@.len() as usize,
    };
    (lens, workspace.real_line@.len() as usize)
}

impl<const N: usize, const M: usize> TransformPlanCore<N, M> {
    /// Elements of this process in front of a stage.
    pub open spec fn elements_before(&self, stage: int) -> int {
        real_elements(self.stages@, self.extra_shape.element_count as int, stage)
    }

    /// Elements of this process behind a stage.
    pub open spec fn elements_behind(&self, stage: int) -> int {
        complex_elements(self.stages@, self.extra_shape.element_count as int, stage)
    }

    /// The lines of a complex stage divide its elements, and a buffer of `line` elements holds one.
    pub open spec fn tail_fits(&self, stage: int, line: usize) -> bool {
        let stride = self.stages@[stage].output.stride_along(self.stages@[stage].axis as int);
        let len = self.elements_behind(stage);
        match self.locals@[stage] {
            LocalTransform::Identity => true,
            LocalTransform::Complex(plan) => sweep_fits(
                stride,
                len,
                len,
                line,
                complex_lens(plan, line),
            ),
            LocalTransform::RealComplex(_) => false,
        }
    }

    /// The lines of each stage divide its elements, and the line buffers hold one, on the way there.
    pub open spec fn lines_fit_there(&self, lens: HalfLens, result_line: usize) -> bool {
        let boundary = self.stages@[self.boundary as int];
        &&& sweep_fits(
            boundary.input.stride_along(boundary.axis as int),
            self.elements_before(self.boundary as int),
            self.elements_behind(self.boundary as int),
            lens.crossing,
            boundary_forward_lens(self.plan(), result_line),
        )
        &&& forall|stage: int|
            self.boundary < stage < self.stages@.len() ==> #[trigger] self.tail_fits(
                stage,
                lens.complexes,
            )
    }

    /// The lines of each stage divide its elements, and the line buffers hold one, on the way home.
    pub open spec fn lines_fit_home(&self, lens: HalfLens, result_line: usize) -> bool {
        let boundary = self.stages@[self.boundary as int];
        &&& sweep_fits(
            boundary.output.stride_along(boundary.axis as int),
            self.elements_behind(self.boundary as int),
            self.elements_before(self.boundary as int),
            lens.crossing,
            boundary_reverse_lens(self.plan(), result_line),
        )
        &&& forall|stage: int|
            self.boundary < stage < self.stages@.len() ==> #[trigger] self.tail_fits(
                stage,
                lens.complexes,
            )
    }

    /// The kernel of a complex stage rejects no line of the stage's.
    pub open spec fn tail_accepts<R: FftReal, FC: Fn(&[Complex<R>], usize) -> Result<Vec<Complex<R>>, LocalC2cError>>(&self, stage: int, kernel: FC) -> bool {
        match self.locals@[stage] {
            LocalTransform::Complex(plan) => accepts::<Complex<R>, Complex<R>, LocalC2cError, FC>(
                kernel,
                plan.line_len as int,
                plan.line_len as int,
            ),
            _ => true,
        }
    }

    /// No kernel of a complex stage rejects a line of its stage.
    pub open spec fn tails_accept<R: FftReal, FC: Fn(&[Complex<R>], usize) -> Result<Vec<Complex<R>>, LocalC2cError>>(&self, kernels: Seq<FC>) -> bool {
        forall|stage: int|
            self.boundary < stage < kernels.len() ==> self.tail_accepts::<R, FC>(
                stage,
                #[trigger] kernels[stage],
            )
    }

    /// A complex stage does not fail where the kernel rejects no line.
    pub proof fn lemma_tail_holds<R: FftReal, FC: Fn(&[Complex<R>], usize) -> Result<Vec<Complex<R>>, LocalC2cError>>(
        &self,
        direction: Direction,
        kernel: &FC,
        step: Step,
        line: usize,
    )
        requires
            self.wf(),
            self.tail_accepts::<R, FC>(step.work->Kernel_0 as int, *kernel),
            boundary_resizes(self.stages@, self.boundary as int),
            step.work is Kernel,
            self.boundary < step.work->Kernel_0 < self.stages@.len(),
            self.tail_fits(step.work->Kernel_0 as int, line),
        ensures
            station_holds::<Complex<R>, Complex<R>, R2cError, ComplexStation<FC, N, M>>(
                self.spec_tail_station(direction, step, kernel),
                self.elements_behind(step.work->Kernel_0 as int),
                self.elements_behind(step.work->Kernel_0 as int),
                line,
            ),
    {
        let stage = step.work->Kernel_0 as int;
        let station = self.spec_tail_station(direction, step, kernel);
        let len = self.elements_behind(stage);
        assert(self.stages@[stage].input == self.stages@[stage].output);
        let stride = station.pencil.stride_along(station.axis as int);
        assert forall|
            source: Seq<Complex<R>>,
            original: Seq<Complex<R>>,
            result: Seq<Complex<R>>,
            outcome: Result<(), R2cError>,
        |
            #[trigger]
            station.leaves(source, original, result, line, outcome) && source.len() == len
                && original.len() == len implies outcome is Ok by {
            let local = choose|local: Result<(), FftError>|
                {
                    &&& #[trigger] complex_done::<Complex<R>, FC>(
                        station.local,
                        *kernel,
                        stride,
                        source,
                        original,
                        result,
                        line,
                        local,
                    )
                    &&& outcome == lifted::<(), R2cError>(local)
                };
            match station.local {
                LocalTransform::Complex(plan) => {
                    lemma_sweep_holds::<Complex<R>, Complex<R>, LocalC2cError, FC>(
                        *kernel,
                        stride,
                        source,
                        original,
                        result,
                        line,
                        complex_lens(plan, line),
                        as_c2c_sweep(local),
                    );
                },
                _ => {},
            }
        }
    }

    /// The route has the stages of the plan.
    pub proof fn lemma_route(&self)
        requires
            self.wf(),
        ensures
            self.itinerary().wf(),
            self.itinerary().stages == self.stages@.len(),
            self.itinerary().kind.spec_has_boundary(),
    {
        assert(self.stages.len() == self.stages@.len());
    }
}

/// Where the values of a forward execution are.
pub open spec fn r2c_lies_there<R: FftReal, FX, FC, XR, XC, const N: usize, const M: usize>(
    crew: R2cForwardCrew<R, FX, FC, XR, XC, N, M>,
    lens: (HalfLens, usize),
    at: Place,
    state: R2cForwardTask<R, N, M>,
) -> bool {
    &&& r2c_lens_there(state.1) == lens
    &&& half_lies(
        crew.core.stages@,
        crew.core.boundary as int,
        crew.core.extra_shape.element_count as int,
        true,
        at,
        crew.source.data@.len() as int,
        half_load(state.1),
        state.0.data@.len() as int,
    )
}

proof fn lemma_r2c_course_there<R: FftReal, FX: Fn(&[R], usize) -> Result<Vec<Complex<R>>, LocalR2cError>, FC: Fn(&[Complex<R>], usize) -> Result<Vec<Complex<R>>, LocalC2cError>, XR: Fn(usize, Passage, Load<R, N, M>) -> (Load<R, N, M>, Result<(), FftError>), XC: Fn(usize, Passage, Load<Complex<R>, N, M>) -> (Load<Complex<R>, N, M>, Result<(), FftError>), const N: usize, const M: usize>(
    crew: R2cForwardCrew<R, FX, FC, XR, XC, N, M>,
    lens: (HalfLens, usize),
)
    requires
        crew.able(),
        crew.core.tails_accept::<R, FC>(crew.kernels@),
        accepts::<R, Complex<R>, LocalR2cError, FX>(
            *crew.crossing,
            crew.core.plan().real_len as int,
            crew.core.plan().complex_len as int,
        ),
        leads_on::<R, XR, N, M>(
            *crew.real_exchange,
            crew.core.transitions@,
            Direction::Forward,
            inputs_of(crew.core.stages@),
        ),
        leads_on::<Complex<R>, XC, N, M>(
            *crew.exchange,
            crew.core.transitions@,
            Direction::Forward,
            outputs_of(crew.core.stages@),
        ),
        boundary_resizes(crew.core.stages@, crew.core.boundary as int),
        crew.core.lines_fit_there(lens.0, lens.1),
    ensures
        keeps_course::<R2cForwardTask<R, N, M>, R2cError, R2cForwardCrew<R, FX, FC, XR, XC, N, M>>(
            crew,
            crew.core.itinerary(),
            true,
            |step: Step| stays_outside(crew.core.itinerary(), step),
            |at: Place, state: R2cForwardTask<R, N, M>| r2c_lies_there(crew, lens, at, state),
        ),
{
    let route = crew.core.itinerary();
    let extra = crew.core.extra_shape.element_count as int;
    let boundary = crew.core.boundary as int;
    let stages = crew.core.stages@;
    let lies = |at: Place, state: R2cForwardTask<R, N, M>| r2c_lies_there(crew, lens, at, state);
    crew.core.lemma_route();
    assert forall|step: Step, at: Place, from: R2cForwardTask<R, N, M>, to: R2cForwardTask<R, N, M>, outcome: Result<(), R2cError>|
        #![trigger next_place(route, true, step, at), crew.does(step, from, to, outcome)]
        crew.does(step, from, to, outcome) && lies(at, from) && stays_outside(route, step)
            && next_place(route, true, step, at) is Some implies outcome is Ok && lies(next_place(route, true, step, at)->0, to) by {
        match step.work {
            Work::Exchange(index) => {
                lemma_half_carried_holds::<R, R2cError, XR, XC, N, M>(
                    route,
                    Direction::Forward,
                    (*crew.real_exchange, *crew.exchange),
                    crew.core.transitions@,
                    step,
                    index,
                    at,
                    stages,
                    extra,
                    crew.source.data@.len() as int,
                    half_load(from.1),
                    half_load(to.1),
                    from.0.data@.len() as int,
                    outcome,
                );
            },
            _ => {
                let stage = crew.core.stage_of(step);
                let crossing = crew.core.spec_forward_crossing(crew.crossing, lens.1);
                let stations = (
                    CopyStation {  },
                    crossing,
                    crew.core.spec_tail_station(Direction::Forward, step, &crew.kernels@[stage]),
                );
                if step.work is Kernel {
                    if stage < crew.core.boundary {
                        lemma_copy_holds::<R, R2cError>(crew.core.elements_before(stage), lens.0.reals);
                    }
                    if stage > crew.core.boundary {
                        assert(crew.core.tail_fits(stage, lens.0.complexes));
                        assert(crew.core.tail_accepts::<R, FC>(stage, crew.kernels@[stage]));
                        crew.core.lemma_tail_holds::<R, FC>(
                            Direction::Forward,
                            &crew.kernels@[stage],
                            step,
                            lens.0.complexes,
                        );
                    }
                    if stage == boundary {
                        let source_len = crew.core.elements_before(stage);
                        let result_len = crew.core.elements_behind(stage);
                        assert forall|
                            source: Seq<R>,
                            original: Seq<Complex<R>>,
                            result: Seq<Complex<R>>,
                            local: Result<(), R2cError>,
                        |
                            #[trigger]
                            crossing.leaves(source, original, result, lens.0.crossing, local)
                                && source.len() == source_len && original.len() == result_len implies local is Ok by {
                            lemma_sweep_holds::<R, Complex<R>, LocalR2cError, FX>(
                                *crew.crossing,
                                crossing.pencil.stride_along(crossing.axis as int),
                                source,
                                original,
                                result,
                                lens.0.crossing,
                                boundary_forward_lens(crossing.plan, lens.1),
                                as_r2c_sweep(local),
                            );
                        }
                        assert(station_holds::<R, Complex<R>, R2cError, ForwardCrossing<FX, N, M>>(
                            crossing,
                            source_len,
                            result_len,
                            lens.0.crossing,
                        ));
                    }
                }
                lemma_forward_holds::<R, R2cError, CopyStation, ForwardCrossing<FX, N, M>, ComplexStation<FC, N, M>, N, M>(
                    route,
                    stations,
                    step,
                    at,
                    stages,
                    extra,
                    crew.source.data@,
                    half_load(from.1),
                    half_load(to.1),
                    (from.0.data@, to.0.data@),
                    lens.0,
                    outcome,
                );
            },
        }
    }
}

/// What a forward execution out of place is owed success for: no kernel rejects a line,
/// the exchanges succeed, and the arguments are made for the plan.
pub open spec fn r2c_owed_there<R: FftReal, FX: Fn(&[R], usize) -> Result<Vec<Complex<R>>, LocalR2cError>, FC: Fn(&[Complex<R>], usize) -> Result<Vec<Complex<R>>, LocalC2cError>, XR: Fn(usize, Passage, Load<R, N, M>) -> (Load<R, N, M>, Result<(), FftError>), XC: Fn(usize, Passage, Load<Complex<R>, N, M>) -> (Load<Complex<R>, N, M>, Result<(), FftError>), const N: usize, const M: usize>(
    crew: R2cForwardCrew<R, FX, FC, XR, XC, N, M>,
    before: R2cForwardTask<R, N, M>,
) -> bool {
    &&& crew.core.tails_accept::<R, FC>(crew.kernels@)
    &&& accepts::<R, Complex<R>, LocalR2cError, FX>(
        *crew.crossing,
        crew.core.plan().real_len as int,
        crew.core.plan().complex_len as int,
    )
    &&& leads_on::<R, XR, N, M>(
        *crew.real_exchange,
        crew.core.transitions@,
        Direction::Forward,
        inputs_of(crew.core.stages@),
    )
    &&& leads_on::<Complex<R>, XC, N, M>(
        *crew.exchange,
        crew.core.transitions@,
        Direction::Forward,
        outputs_of(crew.core.stages@),
    )
    &&& boundary_resizes(crew.core.stages@, crew.core.boundary as int)
    &&& crew.core.lines_fit_there(r2c_lens_there(before.1).0, r2c_lens_there(before.1).1)
    &&& in_order(
        before.1.intermediate,
        crew.core.extra_shape.element_count as int,
        half_entries(crew.core.stages@, crew.core.boundary as int, true).1,
    )
    &&& crew.core.boundary > 0 ==> half_load(before.1).real_buffers is Some
        && before.1.real_intermediate is Some && in_order(
        before.1.real_intermediate->0,
        crew.core.extra_shape.element_count as int,
        half_entries(crew.core.stages@, crew.core.boundary as int, true).0,
    )
    &&& registered(
        before.1.intermediate,
        outputs_of(crew.core.stages@),
        crew.core.boundary as int,
        crew.core.stages@.len() as int,
    )
    &&& crew.core.boundary > 0 ==> registered(
        before.1.real_intermediate->0,
        inputs_of(crew.core.stages@),
        0,
        crew.core.boundary + 1,
    )
    &&& crew.source.data@.len() == crew.core.elements_before(0)
    &&& before.0.data@.len() == crew.core.elements_behind(crew.core.stages@.len() - 1)
}

/// A forward execution of a real-to-complex plan out of place that starts on all processes
/// succeeds where no kernel rejects a line, the exchanges succeed, and the arguments are
/// made for the plan.
pub proof fn law_r2c_forward_succeeds<R: FftReal, FX: Fn(&[R], usize) -> Result<Vec<Complex<R>>, LocalR2cError>, FC: Fn(&[Complex<R>], usize) -> Result<Vec<Complex<R>>, LocalC2cError>, XR: Fn(usize, Passage, Load<R, N, M>) -> (Load<R, N, M>, Result<(), FftError>), XC: Fn(usize, Passage, Load<Complex<R>, N, M>) -> (Load<Complex<R>, N, M>, Result<(), FftError>), Q: Fn(u64, &Vec<u64>) -> Result<(), FftError>, A: Fn(bool) -> bool, const N: usize, const M: usize>(
    crew: R2cForwardCrew<R, FX, FC, XR, XC, N, M>,
    launch: Launch<R2cError>,
    same_plan: Q,
    agree: A,
    eager: Seq<bool>,
    before: R2cForwardTask<R, N, M>,
    after: R2cForwardTask<R, N, M>,
    outcome: Result<(), R2cError>,
)
    requires
        crew.able(),
        executed(
            launch,
            crew.core.descriptor,
            same_plan,
            agree,
            InTurn { crew: &crew },
            before,
            after,
            outcome,
        ),
        launch.steps@ == crew.core.itinerary().list(Direction::Forward, Mode::OutOfPlace, eager),
        ready(launch, crew.core.descriptor, same_plan, agree),
        r2c_owed_there(crew, before),
    ensures
        outcome is Ok,
        steps_run(InTurn { crew: &crew }, agree, launch.steps@, before, after, Ok::<(), R2cError>(())),
{
    let route = crew.core.itinerary();
    let lens = r2c_lens_there(before.1);
    let lies = |at: Place, state: R2cForwardTask<R, N, M>| r2c_lies_there(crew, lens, at, state);
    let allowed = |step: Step| stays_outside(route, step);
    let steps = launch.steps@;
    crew.core.lemma_route();
    lemma_r2c_course_there(crew, lens);
    route.law_led_there(Mode::OutOfPlace, eager);
    route.law_stays_outside(Mode::OutOfPlace, eager);
    let start = route.start_there(Mode::OutOfPlace);
    lemma_course_holds::<R2cForwardTask<R, N, M>, R2cError, R2cForwardCrew<R, FX, FC, XR, XC, N, M>>(crew, route, true, steps, start, allowed, lies);
    let sound = |index: int, state: R2cForwardTask<R, N, M>| on_course(route, true, steps, start, lies, index, state);
    assert(steps.take(0) =~= Seq::<Step>::empty());
    assert(led(route, true, steps.take(0), start) == Some(start));
    assert(lies(start, before));
    assert(sound(0, before));
    law_execution_succeeds::<R2cForwardTask<R, N, M>, R2cError, Q, R2cForwardCrew<R, FX, FC, XR, XC, N, M>, A>(
        launch,
        crew.core.descriptor,
        same_plan,
        agree,
        crew,
        before,
        after,
        outcome,
        sound,
    );
    match outcome {
        Ok(done) => {
            assert(outcome == Ok::<(), R2cError>(()));
        },
        Err(_) => {},
    }
}

/// A forward execution of a real-to-complex plan with overlap that starts on all processes
/// succeeds where one without overlap does, and the parts of the exchanges succeed.
pub proof fn law_r2c_forward_overlapped_succeeds<R: FftReal, FX: Fn(&[R], usize) -> Result<Vec<Complex<R>>, LocalR2cError>, FC: Fn(&[Complex<R>], usize) -> Result<Vec<Complex<R>>, LocalC2cError>, XR: Fn(usize, Passage, Load<R, N, M>) -> (Load<R, N, M>, Result<(), FftError>), XC: Fn(usize, Passage, Load<Complex<R>, N, M>) -> (Load<Complex<R>, N, M>, Result<(), FftError>), YR: Fn(usize, Direction, Option<bool>, Load<R, N, M>) -> (Load<R, N, M>, Result<(), OverlapError<R2cError>>), YC: Fn(usize, Direction, Option<bool>, Load<Complex<R>, N, M>) -> (Load<Complex<R>, N, M>, Result<(), OverlapError<R2cError>>), Q: Fn(u64, &Vec<u64>) -> Result<(), FftError>, A: Fn(bool) -> bool, const N: usize, const M: usize>(
    crew: R2cForwardOverlapCrew<R, FX, FC, XR, XC, YR, YC, N, M>,
    launch: OverlapLaunch<R2cError>,
    same_plan: Q,
    agree: A,
    eager: Seq<bool>,
    before: R2cForwardTask<R, N, M>,
    after: R2cForwardTask<R, N, M>,
    outcome: Result<(), FftOverlapError<R2cError>>,
)
    requires
        crew.able(),
        executed_overlapped(
            launch,
            crew.crew.core.descriptor,
            same_plan,
            agree,
            Overlapped { crew: &crew },
            before,
            after,
            outcome,
        ),
        launch.steps@ == crew.crew.core.itinerary().list(Direction::Forward, Mode::Overlap, eager),
        ready_overlapped(launch, crew.crew.core.descriptor, same_plan, agree),
        r2c_owed_there(crew.crew, before),
        parts_lead_on::<R, R2cError, YR, N, M>(
            *crew.real_split,
            Direction::Forward,
            inputs_of(crew.crew.core.stages@),
        ),
        parts_lead_on::<Complex<R>, R2cError, YC, N, M>(
            *crew.split,
            Direction::Forward,
            outputs_of(crew.crew.core.stages@),
        ),
    ensures
        outcome is Ok,
        encloses::<R2cForwardTask<R, N, M>, R2cError, R2cForwardOverlapCrew<R, FX, FC, XR, XC, YR, YC, N, M>>(crew) ==> ran_overlapped::<R2cForwardTask<R, N, M>, R2cError, R2cForwardOverlapCrew<R, FX, FC, XR, XC, YR, YC, N, M>, A>(
            crew,
            agree,
            launch.steps@,
            before,
            after,
        ),
{
    let inner = crew.crew;
    let route = inner.core.itinerary();
    let stages = inner.core.stages@;
    let extra = inner.core.extra_shape.element_count as int;
    let lens = r2c_lens_there(before.1);
    let lies = |at: Place, state: R2cForwardTask<R, N, M>| r2c_lies_there(inner, lens, at, state);
    let allowed = |step: Step| stays_outside(route, step);
    let steps = launch.steps@;
    inner.core.lemma_route();
    lemma_r2c_course_there(inner, lens);
    assert forall|step: Step, at: Place, from: R2cForwardTask<R, N, M>, to: R2cForwardTask<R, N, M>, local: Result<(), R2cError>|
        #![trigger next_place(route, true, step, at), crew.does(step, from, to, local)]
        crew.does(step, from, to, local) && lies(at, from) && allowed(step) && next_place(
            route,
            true,
            step,
            at,
        ) is Some implies local is Ok && lies(next_place(route, true, step, at)->0, to) by {
        assert(inner.does(step, from, to, local));
    }
    assert forall|
        step: Step,
        index: usize,
        at: Place,
        from: R2cForwardTask<R, N, M>,
        to: R2cForwardTask<R, N, M>,
        local: Result<(), OverlapError<R2cError>>,
    |
        #![trigger next_place(route, true, step, at), crew.lands(index, from, to, local)]
        crew.lands(index, from, to, local) && step.work == Work::Exchange(index) && lies(at, from)
            && next_place(route, true, step, at) is Some implies local is Ok && lies(
        next_place(route, true, step, at)->0,
        to,
    ) by {
        let left = if local is Ok {
            to.1
        } else {
            choose|left: R2cWorkspace<R, N, M>|
                {
                    &&& #[trigger] half_frame(from.1, left)
                    &&& half_part_done::<R, R2cError, YR, YC, N, M>(
                        *crew.real_split,
                        *crew.split,
                        Direction::Forward,
                        index,
                        if index < inner.core.boundary {
                            Slot::Real
                        } else {
                            Slot::Complex
                        },
                        None,
                        half_load(from.1),
                        half_load(left),
                        local,
                    )
                    &&& to.1 == spoiled(overwritten_inside(inner.core.boundary, true, index), left)
                }
        };
        lemma_half_part_lands::<R, R2cError, YR, YC, N, M>(
            route,
            Direction::Forward,
            (*crew.real_split, *crew.split),
            step,
            index,
            at,
            stages,
            extra,
            inner.source.data@.len() as int,
            half_load(from.1),
            half_load(left),
            from.0.data@.len() as int,
            local,
        );
    }
    assert forall|
        index: usize,
        at: Place,
        from: R2cForwardTask<R, N, M>,
        to: R2cForwardTask<R, N, M>,
        local: Result<(), OverlapError<R2cError>>,
    |
        #![trigger crew.settles(index, true, from, to, local), lies(at, from)]
        crew.settles(index, true, from, to, local) && lies(at, from) implies local is Ok && lies(
        at,
        to,
    ) by {
        let left = if local is Ok {
            to.1
        } else {
            choose|left: R2cWorkspace<R, N, M>|
                {
                    &&& #[trigger] half_frame(from.1, left)
                    &&& half_part_done::<R, R2cError, YR, YC, N, M>(
                        *crew.real_split,
                        *crew.split,
                        Direction::Forward,
                        index,
                        if index < inner.core.boundary {
                            Slot::Real
                        } else {
                            Slot::Complex
                        },
                        Some(true),
                        half_load(from.1),
                        half_load(left),
                        local,
                    )
                    &&& to.1 == spoiled(overwritten_inside(inner.core.boundary, true, index), left)
                }
        };
        lemma_half_part_settles::<R, R2cError, YR, YC, N, M>(
            inner.core.boundary as int,
            Direction::Forward,
            (*crew.real_split, *crew.split),
            index,
            at,
            stages,
            extra,
            inner.source.data@.len() as int,
            half_load(from.1),
            half_load(left),
            from.0.data@.len() as int,
            local,
        );
    }
    route.law_led_there(Mode::Overlap, eager);
    route.law_stays_outside(Mode::Overlap, eager);
    let start = route.start_there(Mode::Overlap);
    lemma_overlap_course_holds::<R2cForwardTask<R, N, M>, R2cError, R2cForwardOverlapCrew<R, FX, FC, XR, XC, YR, YC, N, M>>(crew, route, true, steps, start, allowed, lies);
    let sound = |index: int, state: R2cForwardTask<R, N, M>| on_course(route, true, steps, start, lies, index, state);
    assert(steps.take(0) =~= Seq::<Step>::empty());
    assert(led(route, true, steps.take(0), start) == Some(start));
    assert(lies(start, before));
    assert(sound(0, before));
    law_overlapped_execution_succeeds::<R2cForwardTask<R, N, M>, R2cError, Q, Overlapped<R2cForwardOverlapCrew<R, FX, FC, XR, XC, YR, YC, N, M>>, A>(
        launch,
        inner.core.descriptor,
        same_plan,
        agree,
        Overlapped { crew: &crew },
        before,
        after,
        outcome,
        sound,
    );
    match outcome {
        Ok(done) => {
            assert(outcome == Ok::<(), FftOverlapError<R2cError>>(()));
        },
        Err(_) => {},
    }
}

/// Where the values of a reverse execution are.
pub open spec fn r2c_lies_home<R: FftReal, FX, FC, XR, XC, V, const N: usize, const M: usize>(
    crew: R2cReverseCrew<R, FX, FC, XR, XC, V, N, M>,
    lens: (HalfLens, usize),
    at: Place,
    state: R2cReverseTask<R, N, M>,
) -> bool {
    &&& r2c_lens_home(state.1) == lens
    &&& half_lies(
        crew.core.stages@,
        crew.core.boundary as int,
        crew.core.extra_shape.element_count as int,
        false,
        at,
        crew.source.data@.len() as int,
        half_load(state.1),
        state.0.data@.len() as int,
    )
}

proof fn lemma_r2c_course_home<R: FftReal, FX: Fn(&[Complex<R>], usize) -> Result<Vec<R>, LocalR2cError>, FC: Fn(&[Complex<R>], usize) -> Result<Vec<Complex<R>>, LocalC2cError>, XR: Fn(usize, Passage, Load<R, N, M>) -> (Load<R, N, M>, Result<(), FftError>), XC: Fn(usize, Passage, Load<Complex<R>, N, M>) -> (Load<Complex<R>, N, M>, Result<(), FftError>), V: Inspector<R, R2cError, N, M>, const N: usize, const M: usize>(
    crew: R2cReverseCrew<R, FX, FC, XR, XC, V, N, M>,
    lens: (HalfLens, usize),
)
    requires
        crew.able(),
        crew.direction != Direction::Forward,
        crew.core.tails_accept::<R, FC>(crew.kernels@),
        accepts::<Complex<R>, R, LocalR2cError, FX>(
            *crew.crossing,
            crew.core.plan().complex_len as int,
            crew.core.plan().real_len as int,
        ),
        leads_on::<R, XR, N, M>(
            *crew.real_exchange,
            crew.core.transitions@,
            crew.direction,
            inputs_of(crew.core.stages@),
        ),
        leads_on::<Complex<R>, XC, N, M>(
            *crew.exchange,
            crew.core.transitions@,
            crew.direction,
            outputs_of(crew.core.stages@),
        ),
        boundary_resizes(crew.core.stages@, crew.core.boundary as int),
        clearing_stays::<R, R2cError, V, N, M>(*crew.inspector),
        crew.core.lines_fit_home(lens.0, lens.1),
    ensures
        keeps_course_checked::<R2cReverseTask<R, N, M>, R2cError, R2cReverseCrew<R, FX, FC, XR, XC, V, N, M>>(
            crew,
            crew.core.itinerary(),
            false,
            |step: Step| stays_outside(crew.core.itinerary(), step),
            |at: Place, state: R2cReverseTask<R, N, M>| r2c_lies_home(crew, lens, at, state),
        ),
{
    let route = crew.core.itinerary();
    let extra = crew.core.extra_shape.element_count as int;
    let boundary = crew.core.boundary as int;
    let stages = crew.core.stages@;
    let lies = |at: Place, state: R2cReverseTask<R, N, M>| r2c_lies_home(crew, lens, at, state);
    crew.core.lemma_route();
    assert forall|step: Step, at: Place, from: R2cReverseTask<R, N, M>, to: R2cReverseTask<R, N, M>, outcome: Result<(), R2cError>|
        #![trigger next_place(route, false, step, at), crew.does(step, from, to, outcome)]
        crew.does(step, from, to, outcome) && lies(at, from) && stays_outside(route, step)
            && next_place(route, false, step, at) is Some implies (outcome is Ok || is_check(step)) && (outcome is Ok ==> lies(next_place(route, false, step, at)->0, to)) by {
        match step.work {
            Work::Exchange(index) => {
                lemma_half_carried_holds::<R, R2cError, XR, XC, N, M>(
                    route,
                    crew.direction,
                    (*crew.real_exchange, *crew.exchange),
                    crew.core.transitions@,
                    step,
                    index,
                    at,
                    stages,
                    extra,
                    crew.source.data@.len() as int,
                    half_load(from.1),
                    half_load(to.1),
                    from.0.data@.len() as int,
                    outcome,
                );
            },
            Work::Validate => {
                assert(to == from);
            },
            Work::Clear => {
                if outcome is Ok {
                    match outcome {
                        Ok(done) => {
                            assert(crew.inspector.clears(
                                from.1.intermediate,
                                to.1.intermediate,
                                Ok(()),
                            ));
                        },
                        Err(_) => {},
                    }
                }
            },
            _ => {
                let stage = crew.core.stage_of(step);
                let crossing = crew.core.spec_reverse_crossing(crew.crossing, lens.1);
                let stations = (
                    CopyStation {  },
                    crossing,
                    crew.core.spec_tail_station(Direction::Inverse, step, &crew.kernels@[stage]),
                );
                if step.work is Kernel {
                    if stage < crew.core.boundary {
                        lemma_copy_holds::<R, R2cError>(crew.core.elements_before(stage), lens.0.reals);
                    }
                    if stage > crew.core.boundary {
                        assert(crew.core.tail_fits(stage, lens.0.complexes));
                        assert(crew.core.tail_accepts::<R, FC>(stage, crew.kernels@[stage]));
                        crew.core.lemma_tail_holds::<R, FC>(
                            Direction::Inverse,
                            &crew.kernels@[stage],
                            step,
                            lens.0.complexes,
                        );
                    }
                    if stage == boundary {
                        let source_len = crew.core.elements_behind(stage);
                        let result_len = crew.core.elements_before(stage);
                        assert forall|
                            source: Seq<Complex<R>>,
                            original: Seq<R>,
                            result: Seq<R>,
                            local: Result<(), R2cError>,
                        |
                            #[trigger]
                            crossing.leaves(source, original, result, lens.0.crossing, local)
                                && source.len() == source_len && original.len() == result_len implies local is Ok by {
                            lemma_sweep_holds::<Complex<R>, R, LocalR2cError, FX>(
                                *crew.crossing,
                                crossing.pencil.stride_along(crossing.axis as int),
                                source,
                                original,
                                result,
                                lens.0.crossing,
                                boundary_reverse_lens(crossing.plan, lens.1),
                                as_r2c_sweep(local),
                            );
                        }
                        assert(station_holds::<Complex<R>, R, R2cError, ReverseCrossing<FX, N, M>>(
                            crossing,
                            source_len,
                            result_len,
                            lens.0.crossing,
                        ));
                    }
                }
                lemma_reverse_holds::<R, R2cError, CopyStation, ReverseCrossing<FX, N, M>, ComplexStation<FC, N, M>, N, M>(
                    route,
                    stations,
                    step,
                    at,
                    stages,
                    extra,
                    crew.source.data@,
                    half_load(from.1),
                    half_load(to.1),
                    (from.0.data@, to.0.data@),
                    lens.0,
                    outcome,
                );
            },
        }
    }
}

/// What a reverse execution out of place is owed success for: no kernel rejects a line,
/// the exchanges succeed, and the arguments are made for the plan.
pub open spec fn r2c_owed_home<R: FftReal, FX: Fn(&[Complex<R>], usize) -> Result<Vec<R>, LocalR2cError>, FC: Fn(&[Complex<R>], usize) -> Result<Vec<Complex<R>>, LocalC2cError>, XR: Fn(usize, Passage, Load<R, N, M>) -> (Load<R, N, M>, Result<(), FftError>), XC: Fn(usize, Passage, Load<Complex<R>, N, M>) -> (Load<Complex<R>, N, M>, Result<(), FftError>), V: Inspector<R, R2cError, N, M>, const N: usize, const M: usize>(
    crew: R2cReverseCrew<R, FX, FC, XR, XC, V, N, M>,
    before: R2cReverseTask<R, N, M>,
) -> bool {
    &&& crew.core.tails_accept::<R, FC>(crew.kernels@)
    &&& accepts::<Complex<R>, R, LocalR2cError, FX>(
        *crew.crossing,
        crew.core.plan().complex_len as int,
        crew.core.plan().real_len as int,
    )
    &&& leads_on::<R, XR, N, M>(
        *crew.real_exchange,
        crew.core.transitions@,
        crew.direction,
        inputs_of(crew.core.stages@),
    )
    &&& leads_on::<Complex<R>, XC, N, M>(
        *crew.exchange,
        crew.core.transitions@,
        crew.direction,
        outputs_of(crew.core.stages@),
    )
    &&& boundary_resizes(crew.core.stages@, crew.core.boundary as int)
    &&& clearing_stays::<R, R2cError, V, N, M>(*crew.inspector)
    &&& crew.core.lines_fit_home(r2c_lens_home(before.1).0, r2c_lens_home(before.1).1)
    &&& in_order(
        before.1.intermediate,
        crew.core.extra_shape.element_count as int,
        half_entries(crew.core.stages@, crew.core.boundary as int, false).1,
    )
    &&& crew.core.boundary > 0 ==> half_load(before.1).real_buffers is Some
        && before.1.real_intermediate is Some && in_order(
        before.1.real_intermediate->0,
        crew.core.extra_shape.element_count as int,
        half_entries(crew.core.stages@, crew.core.boundary as int, false).0,
    )
    &&& registered(
        before.1.intermediate,
        outputs_of(crew.core.stages@),
        crew.core.boundary as int,
        crew.core.stages@.len() as int,
    )
    &&& crew.core.boundary > 0 ==> registered(
        before.1.real_intermediate->0,
        inputs_of(crew.core.stages@),
        0,
        crew.core.boundary + 1,
    )
    &&& crew.source.data@.len() == crew.core.elements_behind(crew.core.stages@.len() - 1)
    &&& before.0.data@.len() == crew.core.elements_before(0)
}

/// A reverse execution of a real-to-complex plan out of place that starts on all processes succeeds
/// where no kernel rejects a line, the endpoint planes pass their checks, the exchanges succeed,
/// and the arguments are made for the plan.
pub proof fn law_r2c_reverse_succeeds<R: FftReal, FX: Fn(&[Complex<R>], usize) -> Result<Vec<R>, LocalR2cError>, FC: Fn(&[Complex<R>], usize) -> Result<Vec<Complex<R>>, LocalC2cError>, XR: Fn(usize, Passage, Load<R, N, M>) -> (Load<R, N, M>, Result<(), FftError>), XC: Fn(usize, Passage, Load<Complex<R>, N, M>) -> (Load<Complex<R>, N, M>, Result<(), FftError>), V: Inspector<R, R2cError, N, M>, Q: Fn(u64, &Vec<u64>) -> Result<(), FftError>, A: Fn(bool) -> bool, const N: usize, const M: usize>(
    crew: R2cReverseCrew<R, FX, FC, XR, XC, V, N, M>,
    launch: Launch<R2cError>,
    same_plan: Q,
    agree: A,
    eager: Seq<bool>,
    before: R2cReverseTask<R, N, M>,
    after: R2cReverseTask<R, N, M>,
    outcome: Result<(), R2cError>,
    reached: spec_fn(int, R2cReverseTask<R, N, M>) -> bool,
)
    requires
        crew.able(),
        crew.direction != Direction::Forward,
        executed(
            launch,
            crew.core.descriptor,
            same_plan,
            agree,
            InTurn { crew: &crew },
            before,
            after,
            outcome,
        ),
        launch.steps@ == crew.core.itinerary().list(crew.direction, Mode::OutOfPlace, eager),
        ready(launch, crew.core.descriptor, same_plan, agree),
        r2c_owed_home(crew, before),
        checks_pass::<R2cReverseTask<R, N, M>, R2cError, R2cReverseCrew<R, FX, FC, XR, XC, V, N, M>>(crew, launch.steps@, reached),
        reached(0, before),
    ensures
        outcome is Ok,
        steps_run(InTurn { crew: &crew }, agree, launch.steps@, before, after, Ok::<(), R2cError>(())),
{
    let route = crew.core.itinerary();
    let lens = r2c_lens_home(before.1);
    let lies = |at: Place, state: R2cReverseTask<R, N, M>| r2c_lies_home(crew, lens, at, state);
    let allowed = |step: Step| stays_outside(route, step);
    let steps = launch.steps@;
    crew.core.lemma_route();
    lemma_r2c_course_home(crew, lens);
    route.law_led_home(Mode::OutOfPlace, eager);
    route.law_stays_outside(Mode::OutOfPlace, eager);
    let start = route.start_home(Mode::OutOfPlace);
    lemma_checked_course_holds::<R2cReverseTask<R, N, M>, R2cError, R2cReverseCrew<R, FX, FC, XR, XC, V, N, M>>(crew, route, false, steps, start, allowed, lies, reached);
    let sound = |index: int, state: R2cReverseTask<R, N, M>| on_course(route, false, steps, start, lies, index, state) && reached(index, state);
    assert(steps.take(0) =~= Seq::<Step>::empty());
    assert(led(route, false, steps.take(0), start) == Some(start));
    assert(lies(start, before));
    assert(sound(0, before));
    law_execution_succeeds::<R2cReverseTask<R, N, M>, R2cError, Q, R2cReverseCrew<R, FX, FC, XR, XC, V, N, M>, A>(
        launch,
        crew.core.descriptor,
        same_plan,
        agree,
        crew,
        before,
        after,
        outcome,
        sound,
    );
    match outcome {
        Ok(done) => {
            assert(outcome == Ok::<(), R2cError>(()));
        },
        Err(_) => {},
    }
}

/// A reverse execution of a real-to-complex plan with overlap that starts on all processes
/// succeeds where one without overlap does, and the parts of the exchanges succeed.
pub proof fn law_r2c_reverse_overlapped_succeeds<R: FftReal, FX: Fn(&[Complex<R>], usize) -> Result<Vec<R>, LocalR2cError>, FC: Fn(&[Complex<R>], usize) -> Result<Vec<Complex<R>>, LocalC2cError>, XR: Fn(usize, Passage, Load<R, N, M>) -> (Load<R, N, M>, Result<(), FftError>), XC: Fn(usize, Passage, Load<Complex<R>, N, M>) -> (Load<Complex<R>, N, M>, Result<(), FftError>), V: Inspector<R, R2cError, N, M>, YR: Fn(usize, Direction, Option<bool>, Load<R, N, M>) -> (Load<R, N, M>, Result<(), OverlapError<R2cError>>), YC: Fn(usize, Direction, Option<bool>, Load<Complex<R>, N, M>) -> (Load<Complex<R>, N, M>, Result<(), OverlapError<R2cError>>), Q: Fn(u64, &Vec<u64>) -> Result<(), FftError>, A: Fn(bool) -> bool, const N: usize, const M: usize>(
    crew: R2cReverseOverlapCrew<R, FX, FC, XR, XC, V, YR, YC, N, M>,
    launch: OverlapLaunch<R2cError>,
    same_plan: Q,
    agree: A,
    eager: Seq<bool>,
    before: R2cReverseTask<R, N, M>,
    after: R2cReverseTask<R, N, M>,
    outcome: Result<(), FftOverlapError<R2cError>>,
    reached: spec_fn(int, R2cReverseTask<R, N, M>) -> bool,
)
    requires
        crew.able(),
        crew.crew.direction != Direction::Forward,
        executed_overlapped(
            launch,
            crew.crew.core.descriptor,
            same_plan,
            agree,
            Overlapped { crew: &crew },
            before,
            after,
            outcome,
        ),
        launch.steps@ == crew.crew.core.itinerary().list(crew.crew.direction, Mode::Overlap, eager),
        ready_overlapped(launch, crew.crew.core.descriptor, same_plan, agree),
        r2c_owed_home(crew.crew, before),
        parts_lead_on::<R, R2cError, YR, N, M>(
            *crew.real_split,
            crew.crew.direction,
            inputs_of(crew.crew.core.stages@),
        ),
        parts_lead_on::<Complex<R>, R2cError, YC, N, M>(
            *crew.split,
            crew.crew.direction,
            outputs_of(crew.crew.core.stages@),
        ),
        checks_pass::<R2cReverseTask<R, N, M>, R2cError, R2cReverseOverlapCrew<R, FX, FC, XR, XC, V, YR, YC, N, M>>(crew, launch.steps@, reached),
        reached_inside::<R2cReverseTask<R, N, M>, R2cError, R2cReverseOverlapCrew<R, FX, FC, XR, XC, V, YR, YC, N, M>>(crew, launch.steps@, reached),
        reached(0, before),
    ensures
        outcome is Ok,
        encloses::<R2cReverseTask<R, N, M>, R2cError, R2cReverseOverlapCrew<R, FX, FC, XR, XC, V, YR, YC, N, M>>(crew) ==> ran_overlapped::<R2cReverseTask<R, N, M>, R2cError, R2cReverseOverlapCrew<R, FX, FC, XR, XC, V, YR, YC, N, M>, A>(
            crew,
            agree,
            launch.steps@,
            before,
            after,
        ),
{
    let inner = crew.crew;
    let route = inner.core.itinerary();
    let stages = inner.core.stages@;
    let extra = inner.core.extra_shape.element_count as int;
    let lens = r2c_lens_home(before.1);
    let lies = |at: Place, state: R2cReverseTask<R, N, M>| r2c_lies_home(inner, lens, at, state);
    let allowed = |step: Step| stays_outside(route, step);
    let steps = launch.steps@;
    inner.core.lemma_route();
    lemma_r2c_course_home(inner, lens);
    assert forall|step: Step, at: Place, from: R2cReverseTask<R, N, M>, to: R2cReverseTask<R, N, M>, local: Result<(), R2cError>|
        #![trigger next_place(route, false, step, at), crew.does(step, from, to, local)]
        crew.does(step, from, to, local) && lies(at, from) && allowed(step) && next_place(
            route,
            false,
            step,
            at,
        ) is Some implies (local is Ok || is_check(step)) && (local is Ok ==> lies(next_place(route, false, step, at)->0, to)) by {
        assert(inner.does(step, from, to, local));
    }
    assert forall|
        step: Step,
        index: usize,
        at: Place,
        from: R2cReverseTask<R, N, M>,
        to: R2cReverseTask<R, N, M>,
        local: Result<(), OverlapError<R2cError>>,
    |
        #![trigger next_place(route, false, step, at), crew.lands(index, from, to, local)]
        crew.lands(index, from, to, local) && step.work == Work::Exchange(index) && lies(at, from)
            && next_place(route, false, step, at) is Some implies local is Ok && lies(
        next_place(route, false, step, at)->0,
        to,
    ) by {
        let left = if local is Ok {
            to.1
        } else {
            choose|left: R2cWorkspace<R, N, M>|
                {
                    &&& #[trigger] half_frame(from.1, left)
                    &&& half_part_done::<R, R2cError, YR, YC, N, M>(
                        *crew.real_split,
                        *crew.split,
                        inner.direction,
                        index,
                        if index < inner.core.boundary {
                            Slot::Real
                        } else {
                            Slot::Complex
                        },
                        None,
                        half_load(from.1),
                        half_load(left),
                        local,
                    )
                    &&& to.1 == spoiled(overwritten_inside(inner.core.boundary, false, index), left)
                }
        };
        lemma_half_part_lands::<R, R2cError, YR, YC, N, M>(
            route,
            inner.direction,
            (*crew.real_split, *crew.split),
            step,
            index,
            at,
            stages,
            extra,
            inner.source.data@.len() as int,
            half_load(from.1),
            half_load(left),
            from.0.data@.len() as int,
            local,
        );
    }
    assert forall|
        index: usize,
        at: Place,
        from: R2cReverseTask<R, N, M>,
        to: R2cReverseTask<R, N, M>,
        local: Result<(), OverlapError<R2cError>>,
    |
        #![trigger crew.settles(index, true, from, to, local), lies(at, from)]
        crew.settles(index, true, from, to, local) && lies(at, from) implies local is Ok && lies(
        at,
        to,
    ) by {
        let left = if local is Ok {
            to.1
        } else {
            choose|left: R2cWorkspace<R, N, M>|
                {
                    &&& #[trigger] half_frame(from.1, left)
                    &&& half_part_done::<R, R2cError, YR, YC, N, M>(
                        *crew.real_split,
                        *crew.split,
                        inner.direction,
                        index,
                        if index < inner.core.boundary {
                            Slot::Real
                        } else {
                            Slot::Complex
                        },
                        Some(true),
                        half_load(from.1),
                        half_load(left),
                        local,
                    )
                    &&& to.1 == spoiled(overwritten_inside(inner.core.boundary, false, index), left)
                }
        };
        lemma_half_part_settles::<R, R2cError, YR, YC, N, M>(
            inner.core.boundary as int,
            inner.direction,
            (*crew.real_split, *crew.split),
            index,
            at,
            stages,
            extra,
            inner.source.data@.len() as int,
            half_load(from.1),
            half_load(left),
            from.0.data@.len() as int,
            local,
        );
    }
    route.law_led_home(Mode::Overlap, eager);
    route.law_stays_outside(Mode::Overlap, eager);
    let start = route.start_home(Mode::Overlap);
    lemma_overlap_checked_course_holds::<R2cReverseTask<R, N, M>, R2cError, R2cReverseOverlapCrew<R, FX, FC, XR, XC, V, YR, YC, N, M>>(crew, route, false, steps, start, allowed, lies, reached);
    let sound = |index: int, state: R2cReverseTask<R, N, M>| on_course(route, false, steps, start, lies, index, state) && reached(index, state);
    assert(steps.take(0) =~= Seq::<Step>::empty());
    assert(led(route, false, steps.take(0), start) == Some(start));
    assert(lies(start, before));
    assert(sound(0, before));
    law_overlapped_execution_succeeds::<R2cReverseTask<R, N, M>, R2cError, Q, Overlapped<R2cReverseOverlapCrew<R, FX, FC, XR, XC, V, YR, YC, N, M>>, A>(
        launch,
        inner.core.descriptor,
        same_plan,
        agree,
        Overlapped { crew: &crew },
        before,
        after,
        outcome,
        sound,
    );
    match outcome {
        Ok(done) => {
            assert(outcome == Ok::<(), FftOverlapError<R2cError>>(()));
        },
        Err(_) => {},
    }
}

} // verus!
