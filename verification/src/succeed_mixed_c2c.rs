//! When an execution of a mixed complex plan is owed to succeed.

use vstd::prelude::*;

use crate::carrier::Load;
use crate::course::Place;
use crate::course::keeps_course;
use crate::course::led;
use crate::course::lemma_course_holds;
use crate::course::lemma_overlap_course_holds;
use crate::course::next_place;
use crate::course::on_course;
use crate::course::stays_inside;
use crate::crew::Crew;
use crate::crew::InTurn;
use crate::crew::OverlapCrew;
use crate::crew::Overlapped;
use crate::crew_mixed_c2c::MixedC2cCrew;
use crate::crew_mixed_c2c::MixedC2cInPlaceCrew;
use crate::crew_mixed_c2c::MixedC2cInPlaceTask;
use crate::crew_mixed_c2c::MixedC2cOverlapCrew;
use crate::crew_mixed_c2c::MixedC2cTask;
use crate::error::FftError;
use crate::error::FftOverlapError;
use crate::error::MixedError;
use crate::error::OverlapError;
use crate::holds::accepts;
use crate::holds::in_order;
use crate::holds::leads_on;
use crate::holds::lemma_applied_holds;
use crate::holds::lemma_carried_holds;
use crate::holds::lemma_part_lands;
use crate::holds::lemma_part_settles;
use crate::holds::lemma_step_holds;
use crate::holds::lemma_sweep_holds;
use crate::holds::parts_lead_on;
use crate::holds::registered;
use crate::holds::single_lies;
use crate::holds::stands_at;
use crate::holds::station_holds;
use crate::holds::sweep_fits;
use crate::kernels::MixedComplexStation;
use crate::layout::Direction;
use crate::layout::Pencil;
use crate::local::MixedComplexLocal;
use crate::mixed_c2c::MixedC2cCore;
use crate::mixed_c2c::MixedC2cInPlaceArray;
use crate::mixed_c2c::MixedC2cInPlaceWorkspace;
use crate::registry::outputs_of;
use crate::round_shared::all_wf;
use crate::run::Launch;
use crate::run::OverlapLaunch;
use crate::run::Transacted;
use crate::run::executed;
use crate::run::executed_in_place;
use crate::run::executed_overlapped;
use crate::run::steps_run;
use crate::scalar::Complex;
use crate::scalar::FftReal;
use crate::schedule::Mode;
use crate::schedule::Slot;
use crate::schedule::Step;
use crate::schedule::Work;
use crate::stages::LocalError;
use crate::stages::as_mixed_sweep;
use crate::stages::complex_lens;
use crate::stages::mixed_r2r_lens;
use crate::station::Station;
use crate::success::law_execution_in_place_succeeds;
use crate::success::law_execution_succeeds;
use crate::success::law_overlapped_execution_succeeds;
use crate::success::ready;
use crate::success::ready_overlapped;
use crate::transition::Passage;
use crate::walk::encloses;
use crate::walk::ran_overlapped;

verus! {

impl<const N: usize, const M: usize> MixedC2cCore<N, M> {
    /// Elements of this process at a stage.
    pub open spec fn elements_at(&self, stage: int) -> int {
        self.stages@[stage].output.local_len * self.extra_shape.element_count
    }

    /// The lines of each stage divide its elements, and a buffer of `line` elements holds one.
    pub open spec fn lines_fit(&self, line: usize) -> bool {
        forall|stage: int|
            0 <= stage < self.stages@.len() ==> #[trigger] self.line_fits(stage, line)
    }

    /// The lines of a stage divide its elements, and a buffer of `line` elements holds one.
    pub open spec fn line_fits(&self, stage: int, line: usize) -> bool {
        let stride = self.stages@[stage].output.stride_along(self.stages@[stage].axis as int);
        let len = self.elements_at(stage);
        match self.locals@[stage] {
            MixedComplexLocal::Identity => true,
            MixedComplexLocal::Fft(plan) => sweep_fits(
                stride,
                len,
                len,
                line,
                complex_lens(plan, line),
            ),
            MixedComplexLocal::R2r(plan) => sweep_fits(
                stride,
                len,
                len,
                line,
                mixed_r2r_lens(plan.plan(), line),
            ),
        }
    }

    /// The kernel of a stage rejects no line of the stage's.
    pub open spec fn kernel_accepts<R: FftReal, F: Fn(&[Complex<R>], usize) -> Result<Vec<Complex<R>>, LocalError>>(&self, stage: int, kernel: F) -> bool {
        match self.locals@[stage] {
            MixedComplexLocal::Identity => true,
            MixedComplexLocal::Fft(plan) => accepts::<Complex<R>, Complex<R>, LocalError, F>(
                kernel,
                plan.line_len as int,
                plan.line_len as int,
            ),
            MixedComplexLocal::R2r(plan) => accepts::<Complex<R>, Complex<R>, LocalError, F>(
                kernel,
                plan.plan().line_len as int,
                plan.plan().line_len as int,
            ),
        }
    }

    /// No kernel rejects a line of its stage.
    pub open spec fn kernels_accept<R: FftReal, F: Fn(&[Complex<R>], usize) -> Result<Vec<Complex<R>>, LocalError>>(&self, kernels: Seq<F>) -> bool {
        forall|stage: int|
            0 <= stage < kernels.len() ==> self.kernel_accepts::<R, F>(
                stage,
                #[trigger] kernels[stage],
            )
    }

    proof fn lemma_stations_hold<R: FftReal, F: Fn(&[Complex<R>], usize) -> Result<Vec<Complex<R>>, LocalError>>(
        &self,
        direction: Direction,
        kernels: Seq<F>,
        step: Step,
        line: usize,
    )
        requires
            self.wf(),
            kernels.len() == self.stages@.len(),
            self.kernels_accept::<R, F>(kernels),
            self.lines_fit(line),
            step.work is Kernel,
            step.work->Kernel_0 < self.stages@.len(),
        ensures
            station_holds::<Complex<R>, Complex<R>, MixedError, MixedComplexStation<F, N, M>>(
                self.spec_station(direction, step, &kernels[step.work->Kernel_0 as int]),
                self.elements_at(step.work->Kernel_0 as int),
                self.elements_at(step.work->Kernel_0 as int),
                line,
            ),
    {
        let stage = step.work->Kernel_0 as int;
        let station = self.spec_station(direction, step, &kernels[stage]);
        assert(self.line_fits(stage, line));
        assert(self.kernel_accepts::<R, F>(stage, kernels[stage]));
        assert(self.stages@[stage].input == self.stages@[stage].output);
        assert forall|source: Seq<Complex<R>>, original: Seq<Complex<R>>, result: Seq<Complex<R>>, outcome: Result<(), MixedError>|
            #[trigger]
            station.leaves(source, original, result, line, outcome) && source.len()
                == self.elements_at(stage) && original.len() == self.elements_at(stage) implies outcome is Ok by {
            let stride = station.pencil.stride_along(station.axis as int);
            let sweep = as_mixed_sweep(outcome);
            match self.locals@[stage] {
                MixedComplexLocal::Identity => {},
                MixedComplexLocal::Fft(plan) => {
                    lemma_sweep_holds::<Complex<R>, Complex<R>, LocalError, F>(
                        kernels[stage],
                        stride,
                        source,
                        original,
                        result,
                        line,
                        complex_lens(plan, line),
                        sweep,
                    );
                },
                MixedComplexLocal::R2r(plan) => {
                    lemma_sweep_holds::<Complex<R>, Complex<R>, LocalError, F>(
                        kernels[stage],
                        stride,
                        source,
                        original,
                        result,
                        line,
                        mixed_r2r_lens(plan.plan(), line),
                        sweep,
                    );
                },
            }
        }
    }

    proof fn lemma_layouts(&self)
        requires
            self.wf(),
        ensures
            all_wf(outputs_of(self.stages@)),
            self.itinerary().wf(),
            self.itinerary().stages == self.stages@.len(),
    {
        assert(self.stages.len() == self.stages@.len());
        assert forall|i: int| 0 <= i < outputs_of(self.stages@).len() implies (
        #[trigger] outputs_of(self.stages@)[i]).wf() by {
            assert(self.stages@[i].wf());
        }
    }
}

/// Where the values of an out-of-place execution are.
pub open spec fn mixed_c2c_lies<R: FftReal, F, X, const N: usize, const M: usize>(
    crew: MixedC2cCrew<R, F, X, N, M>,
    line: usize,
    at: Place,
    state: MixedC2cTask<R, N, M>,
) -> bool {
    &&& state.1.line_buffer@.len() == line
    &&& single_lies(
        outputs_of(crew.core.stages@),
        crew.core.extra_shape.element_count as int,
        crew.direction == Direction::Forward,
        at,
        crew.source.data@.len() as int,
        state.1.intermediate,
        state.0.data@.len() as int,
    )
}

proof fn lemma_mixed_c2c_course<R: FftReal, F: Fn(&[Complex<R>], usize) -> Result<Vec<Complex<R>>, LocalError>, X: Fn(usize, Passage, Load<Complex<R>, N, M>) -> (Load<Complex<R>, N, M>, Result<(), FftError>), const N: usize, const M: usize>(crew: MixedC2cCrew<R, F, X, N, M>, line: usize)
    requires
        crew.able(),
        crew.core.kernels_accept::<R, F>(crew.kernels@),
        crew.core.lines_fit(line),
        leads_on::<Complex<R>, X, N, M>(
            *crew.exchange,
            crew.core.transitions@,
            crew.direction,
            outputs_of(crew.core.stages@),
        ),
    ensures
        keeps_course::<MixedC2cTask<R, N, M>, MixedError, MixedC2cCrew<R, F, X, N, M>>(
            crew,
            crew.core.itinerary(),
            crew.direction == Direction::Forward,
            |step: Step| true,
            |at: Place, state: MixedC2cTask<R, N, M>| mixed_c2c_lies(crew, line, at, state),
        ),
{
    let route = crew.core.itinerary();
    let forward = crew.direction == Direction::Forward;
    let layouts = outputs_of(crew.core.stages@);
    let extra = crew.core.extra_shape.element_count as int;
    let entry = crew.core.entry_pencil(crew.direction);
    let lies = |at: Place, state: MixedC2cTask<R, N, M>| mixed_c2c_lies(crew, line, at, state);
    crew.core.lemma_layouts();
    assert forall|step: Step, at: Place, from: MixedC2cTask<R, N, M>, to: MixedC2cTask<R, N, M>, outcome: Result<(), MixedError>|
        #![trigger next_place(route, forward, step, at), crew.does(step, from, to, outcome)]
        crew.does(step, from, to, outcome) && lies(at, from) && next_place(route, forward, step, at)
            is Some implies outcome is Ok && lies(next_place(route, forward, step, at)->0, to) by {
        match step.work {
            Work::Exchange(index) => {
                lemma_carried_holds::<Complex<R>, MixedError, X, N, M>(
                    *crew.exchange,
                    crew.core.transitions@,
                    crew.direction,
                    layouts,
                    index,
                    (from.1.intermediate, from.1.transpose),
                    (to.1.intermediate, to.1.transpose),
                    outcome,
                    extra,
                    entry,
                );
            },
            _ => {
                let stage = crew.core.stage_of(step);
                let station = crew.core.spec_station(crew.direction, step, &crew.kernels@[stage]);
                if step.work is Kernel {
                    crew.core.lemma_stations_hold::<R, F>(crew.direction, crew.kernels@, step, line);
                }
                lemma_step_holds::<Complex<R>, MixedError, MixedComplexStation<F, N, M>, N, M>(
                    route,
                    forward,
                    station,
                    step,
                    at,
                    layouts,
                    extra,
                    crew.source.data@,
                    (from.1.intermediate, to.1.intermediate),
                    (from.0.data@, to.0.data@),
                    line,
                    outcome,
                );
            },
        }
    }
}

/// What an execution out of place is owed success for: no kernel rejects a line, the exchanges
/// succeed, and the arguments are made for the plan.
pub open spec fn mixed_c2c_owed<R: FftReal, F: Fn(&[Complex<R>], usize) -> Result<Vec<Complex<R>>, LocalError>, X: Fn(usize, Passage, Load<Complex<R>, N, M>) -> (Load<Complex<R>, N, M>, Result<(), FftError>), const N: usize, const M: usize>(
    crew: MixedC2cCrew<R, F, X, N, M>,
    before: MixedC2cTask<R, N, M>,
) -> bool {
    &&& crew.core.kernels_accept::<R, F>(crew.kernels@)
    &&& crew.core.lines_fit(before.1.line_buffer@.len() as usize)
    &&& leads_on::<Complex<R>, X, N, M>(
        *crew.exchange,
        crew.core.transitions@,
        crew.direction,
        outputs_of(crew.core.stages@),
    )
    &&& in_order(
        before.1.intermediate,
        crew.core.extra_shape.element_count as int,
        crew.core.entry_pencil(crew.direction),
    )
    &&& registered(
        before.1.intermediate,
        outputs_of(crew.core.stages@),
        0,
        crew.core.stages@.len() as int,
    )
    &&& crew.source.data@.len() == crew.core.elements_at(
        if crew.direction == Direction::Forward {
            0
        } else {
            crew.core.stages@.len() - 1
        },
    )
    &&& before.0.data@.len() == crew.core.elements_at(
        if crew.direction == Direction::Forward {
            crew.core.stages@.len() - 1
        } else {
            0
        },
    )
}

/// An execution of a mixed complex plan out of place that starts on all processes succeeds where
/// no kernel rejects a line, the exchanges succeed, and the arguments are made for the plan.
pub proof fn law_mixed_c2c_succeeds<R: FftReal, F: Fn(&[Complex<R>], usize) -> Result<Vec<Complex<R>>, LocalError>, X: Fn(usize, Passage, Load<Complex<R>, N, M>) -> (Load<Complex<R>, N, M>, Result<(), FftError>), Q: Fn(u64, &Vec<u64>) -> Result<(), FftError>, A: Fn(bool) -> bool, const N: usize, const M: usize>(
    crew: MixedC2cCrew<R, F, X, N, M>,
    launch: Launch<MixedError>,
    same_plan: Q,
    agree: A,
    eager: Seq<bool>,
    before: MixedC2cTask<R, N, M>,
    after: MixedC2cTask<R, N, M>,
    outcome: Result<(), MixedError>,
)
    requires
        crew.able(),
        executed(
            launch,
            crew.core.descriptor,
            same_plan,
            agree,
            InTurn { crew: &crew },
            before,
            after,
            outcome,
        ),
        launch.steps@ == crew.core.itinerary().list(crew.direction, Mode::OutOfPlace, eager),
        ready(launch, crew.core.descriptor, same_plan, agree),
        mixed_c2c_owed(crew, before),
    ensures
        outcome is Ok,
        steps_run(InTurn { crew: &crew }, agree, launch.steps@, before, after, Ok::<(), MixedError>(())),
{
    let route = crew.core.itinerary();
    let forward = crew.direction == Direction::Forward;
    let line = before.1.line_buffer@.len() as usize;
    let lies = |at: Place, state: MixedC2cTask<R, N, M>| mixed_c2c_lies(crew, line, at, state);
    let steps = launch.steps@;
    crew.core.lemma_layouts();
    lemma_mixed_c2c_course(crew, line);
    route.law_led_there(Mode::OutOfPlace, eager);
    route.law_led_home(Mode::OutOfPlace, eager);
    let start = if forward {
        route.start_there(Mode::OutOfPlace)
    } else {
        route.start_home(Mode::OutOfPlace)
    };
    lemma_course_holds::<MixedC2cTask<R, N, M>, MixedError, MixedC2cCrew<R, F, X, N, M>>(crew, route, forward, steps, start, |step: Step| true, lies);
    let sound = |index: int, state: MixedC2cTask<R, N, M>| on_course(route, forward, steps, start, lies, index, state);
    assert(before.1.line_buffer.len() == before.1.line_buffer@.len());
    assert(steps.take(0) =~= Seq::<Step>::empty());
    assert(led(route, forward, steps.take(0), start) == Some(start));
    assert(lies(start, before));
    assert(sound(0, before));
    law_execution_succeeds::<MixedC2cTask<R, N, M>, MixedError, Q, MixedC2cCrew<R, F, X, N, M>, A>(
        launch,
        crew.core.descriptor,
        same_plan,
        agree,
        crew,
        before,
        after,
        outcome,
        sound,
    );
    match outcome {
        Ok(done) => {
            assert(outcome == Ok::<(), MixedError>(()));
        },
        Err(_) => {},
    }
}

/// Where the values of an in-place execution are.
pub open spec fn mixed_c2c_lies_in_place<R: FftReal, F, X, const N: usize, const M: usize>(
    crew: MixedC2cInPlaceCrew<F, X, N, M>,
    line: usize,
    entry: Pencil<N, M>,
    at: Place,
    state: MixedC2cInPlaceTask<R, N, M>,
) -> bool {
    &&& state.1.line_buffer@.len() == line
    &&& in_order(state.0.array, crew.core.extra_shape.element_count as int, entry)
    &&& registered(state.0.array, outputs_of(crew.core.stages@), 0, crew.core.stages@.len() as int)
    &&& at.slot == Slot::Complex
    &&& 0 <= at.stage < crew.core.stages@.len()
    &&& stands_at(state.0.array, crew.core.elements_at(at.stage))
}

/// What an execution in place is owed success for: no kernel rejects a line, the exchanges succeed,
/// and the array is in order.
pub open spec fn mixed_c2c_owed_in_place<R: FftReal, F: Fn(&[Complex<R>], usize) -> Result<Vec<Complex<R>>, LocalError>, X: Fn(usize, Passage, Load<Complex<R>, N, M>) -> (Load<Complex<R>, N, M>, Result<(), FftError>), const N: usize, const M: usize>(
    crew: MixedC2cInPlaceCrew<F, X, N, M>,
    before: MixedC2cInPlaceTask<R, N, M>,
) -> bool {
    &&& crew.core.kernels_accept::<R, F>(crew.kernels@)
    &&& crew.core.lines_fit(before.1.line_buffer@.len() as usize)
    &&& leads_on::<Complex<R>, X, N, M>(
        *crew.exchange,
        crew.core.transitions@,
        crew.direction,
        outputs_of(crew.core.stages@),
    )
    &&& before.0.array.wf()
    &&& registered(before.0.array, outputs_of(crew.core.stages@), 0, crew.core.stages@.len() as int)
    &&& all_wf(before.0.array.pencils@)
    &&& before.0.array.extra_shape.element_count == crew.core.extra_shape.element_count
    &&& stands_at(
        before.0.array,
        crew.core.elements_at(
            if crew.direction == Direction::Forward {
                0
            } else {
                crew.core.stages@.len() - 1
            },
        ),
    )
}

/// An execution of a mixed complex plan in place that starts on all processes succeeds where no
/// kernel rejects a line, the exchanges succeed, and the array is in order.
pub proof fn law_mixed_c2c_in_place_succeeds<R: FftReal, F: Fn(&[Complex<R>], usize) -> Result<Vec<Complex<R>>, LocalError>, X: Fn(usize, Passage, Load<Complex<R>, N, M>) -> (Load<Complex<R>, N, M>, Result<(), FftError>), Q: Fn(u64, &Vec<u64>) -> Result<(), FftError>, A: Fn(bool) -> bool, const N: usize, const M: usize>(
    crew: MixedC2cInPlaceCrew<F, X, N, M>,
    launch: Launch<MixedError>,
    same_plan: Q,
    agree: A,
    eager: Seq<bool>,
    before: MixedC2cInPlaceTask<R, N, M>,
    after: MixedC2cInPlaceTask<R, N, M>,
    outcome: Result<(), MixedError>,
)
    requires
        Crew::<MixedC2cInPlaceTask<R, N, M>, MixedError>::able(&crew),
        executed_in_place(
            launch,
            crew.core.descriptor,
            same_plan,
            agree,
            InTurn { crew: &crew },
            before,
            after,
            outcome,
        ),
        launch.steps@ == crew.core.itinerary().list(crew.direction, Mode::InPlace, eager),
        ready(launch, crew.core.descriptor, same_plan, agree),
        mixed_c2c_owed_in_place(crew, before),
    ensures
        outcome is Ok,
        exists|left: MixedC2cInPlaceTask<R, N, M>|
            {
                &&& #[trigger] steps_run(
                    InTurn { crew: &crew },
                    agree,
                    launch.steps@,
                    (before.0.interrupted(), before.1),
                    left,
                    Ok::<(), MixedError>(()),
                )
                &&& after == (left.0.completed(launch.direction), left.1)
            },
{
    let route = crew.core.itinerary();
    let forward = crew.direction == Direction::Forward;
    let line = before.1.line_buffer@.len() as usize;
    let extra = crew.core.extra_shape.element_count as int;
    let entry = before.0.array.pencils@[0];
    let layouts = outputs_of(crew.core.stages@);
    let lies = |at: Place, state: MixedC2cInPlaceTask<R, N, M>| mixed_c2c_lies_in_place(crew, line, entry, at, state);
    let steps = launch.steps@;
    crew.core.lemma_layouts();
    assert forall|step: Step, at: Place, from: MixedC2cInPlaceTask<R, N, M>, to: MixedC2cInPlaceTask<R, N, M>, local: Result<(), MixedError>|
        #![trigger next_place(route, forward, step, at), crew.does(step, from, to, local)]
        crew.does(step, from, to, local) && lies(at, from) && next_place(route, forward, step, at)
            is Some && stays_inside(step) implies local is Ok && lies(next_place(route, forward, step, at)->0, to) by {
        match step.work {
            Work::Exchange(index) => {
                lemma_carried_holds::<Complex<R>, MixedError, X, N, M>(
                    *crew.exchange,
                    crew.core.transitions@,
                    crew.direction,
                    layouts,
                    index,
                    (from.0.array, from.1.transpose),
                    (to.0.array, to.1.transpose),
                    local,
                    extra,
                    entry,
                );
            },
            Work::Kernel(stage) => {
                crew.core.lemma_stations_hold::<R, F>(crew.direction, crew.kernels@, step, line);
                lemma_applied_holds::<Complex<R>, MixedError, MixedComplexStation<F, N, M>, N, M>(
                    crew.core.spec_station(crew.direction, step, &crew.kernels@[stage as int]),
                    from.0.array,
                    to.0.array,
                    line,
                    local,
                    extra,
                    entry,
                    crew.core.elements_at(at.stage),
                );
            },
            _ => {},
        }
    }
    route.law_led_there(Mode::InPlace, eager);
    route.law_led_home(Mode::InPlace, eager);
    let start = if forward {
        route.start_there(Mode::InPlace)
    } else {
        route.start_home(Mode::InPlace)
    };
    route.law_stays_inside(eager);
    lemma_course_holds::<MixedC2cInPlaceTask<R, N, M>, MixedError, MixedC2cInPlaceCrew<F, X, N, M>>(crew, route, forward, steps, start, |step: Step| stays_inside(step), lies);
    let sound = |index: int, state: MixedC2cInPlaceTask<R, N, M>| on_course(route, forward, steps, start, lies, index, state);
    let begun = (Transacted::interrupted(before.0), before.1);
    assert(before.1.line_buffer.len() == before.1.line_buffer@.len());
    assert(steps.take(0) =~= Seq::<Step>::empty());
    assert(led(route, forward, steps.take(0), start) == Some(start));
    assert(lies(start, begun));
    assert(sound(0, begun));
    law_execution_in_place_succeeds::<MixedC2cInPlaceArray<R, N, M>, MixedC2cInPlaceWorkspace<R, N, M>, MixedError, Q, MixedC2cInPlaceCrew<F, X, N, M>, A>(
        launch,
        crew.core.descriptor,
        same_plan,
        agree,
        crew,
        before,
        after,
        outcome,
        sound,
    );
    match outcome {
        Ok(done) => {
            assert(outcome == Ok::<(), MixedError>(()));
        },
        Err(_) => {},
    }
}

/// An execution of a mixed complex plan with overlap that starts on all processes succeeds where one
/// without overlap does, and the parts of the exchanges succeed.
pub proof fn law_mixed_c2c_overlapped_succeeds<R: FftReal, F: Fn(&[Complex<R>], usize) -> Result<Vec<Complex<R>>, LocalError>, X: Fn(usize, Passage, Load<Complex<R>, N, M>) -> (Load<Complex<R>, N, M>, Result<(), FftError>), Y: Fn(usize, Direction, Option<bool>, Load<Complex<R>, N, M>) -> (Load<Complex<R>, N, M>, Result<(), OverlapError<MixedError>>), Q: Fn(u64, &Vec<u64>) -> Result<(), FftError>, A: Fn(bool) -> bool, const N: usize, const M: usize>(
    crew: MixedC2cOverlapCrew<R, F, X, Y, N, M>,
    launch: OverlapLaunch<MixedError>,
    same_plan: Q,
    agree: A,
    eager: Seq<bool>,
    before: MixedC2cTask<R, N, M>,
    after: MixedC2cTask<R, N, M>,
    outcome: Result<(), FftOverlapError<MixedError>>,
)
    requires
        crew.able(),
        executed_overlapped(
            launch,
            crew.crew.core.descriptor,
            same_plan,
            agree,
            Overlapped { crew: &crew },
            before,
            after,
            outcome,
        ),
        launch.steps@ == crew.crew.core.itinerary().list(crew.crew.direction, Mode::Overlap, eager),
        ready_overlapped(launch, crew.crew.core.descriptor, same_plan, agree),
        mixed_c2c_owed(crew.crew, before),
        parts_lead_on::<Complex<R>, MixedError, Y, N, M>(
            *crew.split,
            crew.crew.direction,
            outputs_of(crew.crew.core.stages@),
        ),
    ensures
        outcome is Ok,
        encloses::<MixedC2cTask<R, N, M>, MixedError, MixedC2cOverlapCrew<R, F, X, Y, N, M>>(crew) ==> ran_overlapped::<MixedC2cTask<R, N, M>, MixedError, MixedC2cOverlapCrew<R, F, X, Y, N, M>, A>(
            crew,
            agree,
            launch.steps@,
            before,
            after,
        ),
{
    let inner = crew.crew;
    let route = inner.core.itinerary();
    let forward = inner.direction == Direction::Forward;
    let line = before.1.line_buffer@.len() as usize;
    let layouts = outputs_of(inner.core.stages@);
    let extra = inner.core.extra_shape.element_count as int;
    let entry = inner.core.entry_pencil(inner.direction);
    let lies = |at: Place, state: MixedC2cTask<R, N, M>| mixed_c2c_lies(inner, line, at, state);
    let steps = launch.steps@;
    inner.core.lemma_layouts();
    lemma_mixed_c2c_course(inner, line);
    assert forall|step: Step, at: Place, from: MixedC2cTask<R, N, M>, to: MixedC2cTask<R, N, M>, local: Result<(), MixedError>|
        #![trigger next_place(route, forward, step, at), crew.does(step, from, to, local)]
        crew.does(step, from, to, local) && lies(at, from) && next_place(route, forward, step, at)
            is Some implies local is Ok && lies(next_place(route, forward, step, at)->0, to) by {
        assert(inner.does(step, from, to, local));
    }
    assert forall|
        step: Step,
        index: usize,
        at: Place,
        from: MixedC2cTask<R, N, M>,
        to: MixedC2cTask<R, N, M>,
        local: Result<(), OverlapError<MixedError>>,
    |
        #![trigger next_place(route, forward, step, at), crew.lands(index, from, to, local)]
        crew.lands(index, from, to, local) && step.work == Work::Exchange(index) && lies(at, from)
            && next_place(route, forward, step, at) is Some implies local is Ok && lies(
        next_place(route, forward, step, at)->0,
        to,
    ) by {
        lemma_part_lands::<Complex<R>, MixedError, Y, N, M>(
            *crew.split,
            inner.direction,
            layouts,
            index,
            (from.1.intermediate, from.1.transpose),
            (to.1.intermediate, to.1.transpose),
            local,
            extra,
            entry,
        );
    }
    assert forall|index: usize, at: Place, from: MixedC2cTask<R, N, M>, to: MixedC2cTask<R, N, M>, local: Result<(), OverlapError<MixedError>>|
        #![trigger crew.settles(index, true, from, to, local), lies(at, from)]
        crew.settles(index, true, from, to, local) && lies(at, from) implies local is Ok && lies(
        at,
        to,
    ) by {
        lemma_part_settles::<Complex<R>, MixedError, Y, N, M>(
            *crew.split,
            inner.direction,
            layouts,
            index,
            (from.1.intermediate, from.1.transpose),
            (to.1.intermediate, to.1.transpose),
            local,
            extra,
            entry,
        );
    }
    route.law_led_there(Mode::Overlap, eager);
    route.law_led_home(Mode::Overlap, eager);
    let start = if forward {
        route.start_there(Mode::Overlap)
    } else {
        route.start_home(Mode::Overlap)
    };
    lemma_overlap_course_holds::<MixedC2cTask<R, N, M>, MixedError, MixedC2cOverlapCrew<R, F, X, Y, N, M>>(crew, route, forward, steps, start, |step: Step| true, lies);
    let sound = |index: int, state: MixedC2cTask<R, N, M>| on_course(route, forward, steps, start, lies, index, state);
    assert(before.1.line_buffer.len() == before.1.line_buffer@.len());
    assert(steps.take(0) =~= Seq::<Step>::empty());
    assert(led(route, forward, steps.take(0), start) == Some(start));
    assert(lies(start, before));
    assert(sound(0, before));
    law_overlapped_execution_succeeds::<MixedC2cTask<R, N, M>, MixedError, Q, Overlapped<MixedC2cOverlapCrew<R, F, X, Y, N, M>>, A>(
        launch,
        inner.core.descriptor,
        same_plan,
        agree,
        Overlapped { crew: &crew },
        before,
        after,
        outcome,
        sound,
    );
    match outcome {
        Ok(done) => {
            assert(outcome == Ok::<(), FftOverlapError<MixedError>>(()));
        },
        Err(_) => {},
    }
}

} // verus!
