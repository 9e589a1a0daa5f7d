//! When an execution of a real-to-real or Hartley plan is owed to succeed.

use vstd::prelude::*;

use crate::carrier::Load;
use crate::course::Place;
use crate::course::keeps_course;
use crate::course::led;
use crate::course::lemma_course_holds;
use crate::course::next_place;
use crate::course::on_course;
use crate::course::stays_inside;
use crate::crew::Crew;
use crate::crew::InTurn;
use crate::crew_r2r::R2rCrew;
use crate::crew_r2r::R2rInPlaceCrew;
use crate::crew_r2r::R2rInPlaceTask;
use crate::crew_r2r::R2rTask;
use crate::error::FftError;
use crate::error::LocalR2rError;
use crate::error::R2rError;
use crate::holds::accepts;
use crate::holds::in_order;
use crate::holds::leads_on;
use crate::holds::lemma_applied_holds;
use crate::holds::lemma_carried_holds;
use crate::holds::lemma_step_holds;
use crate::holds::lemma_sweep_holds;
use crate::holds::registered;
use crate::holds::single_lies;
use crate::holds::stands_at;
use crate::holds::station_holds;
use crate::holds::sweep_fits;
use crate::kernels::R2rStation;
use crate::layout::Direction;
use crate::layout::Pencil;
use crate::r2r::R2rCore;
use crate::r2r::R2rInPlaceArray;
use crate::r2r::R2rInPlaceWorkspace;
use crate::registry::outputs_of;
use crate::round_shared::all_wf;
use crate::run::Launch;
use crate::run::Transacted;
use crate::run::executed;
use crate::run::executed_in_place;
use crate::run::steps_run;
use crate::scalar::R2rScalar;
use crate::schedule::Mode;
use crate::schedule::Slot;
use crate::schedule::Step;
use crate::schedule::Work;
use crate::stages::as_r2r_sweep;
use crate::stages::r2r_lens;
use crate::station::Station;
use crate::success::law_execution_in_place_succeeds;
use crate::success::law_execution_succeeds;
use crate::success::ready;
use crate::transition::Passage;

verus! {

impl<const N: usize, const M: usize> R2rCore<N, M> {
    /// Elements of this process at a stage.
    pub open spec fn elements_at(&self, stage: int) -> int {
        self.stages@[stage].output.local_len * self.extra_shape.element_count
    }

    /// The lines of each stage divide its elements, and a buffer of `line` elements holds one.
    pub open spec fn lines_fit(&self, line: usize) -> bool {
        forall|stage: int|
            0 <= stage < self.stages@.len() ==> #[trigger] self.line_fits(stage, line)
    }

    /// The lines of a stage divide its elements, and a buffer of `line` elements holds one.
    pub open spec fn line_fits(&self, stage: int, line: usize) -> bool {
        let stride = self.stages@[stage].output.stride_along(self.stages@[stage].axis as int);
        let len = self.elements_at(stage);
        match self.locals@[stage].plan() {
            None => true,
            Some(plan) => sweep_fits(stride, len, len, line, r2r_lens(plan, line)),
        }
    }

    /// The kernel of a stage rejects no line of the stage's.
    pub open spec fn kernel_accepts<T: R2rScalar, F: Fn(&[T], usize) -> Result<Vec<T>, LocalR2rError>>(&self, stage: int, kernel: F) -> bool {
        match self.locals@[stage].plan() {
            None => true,
            Some(plan) => accepts::<T, T, LocalR2rError, F>(
                kernel,
                plan.line_len as int,
                plan.line_len as int,
            ),
        }
    }

    /// No kernel rejects a line of its stage.
    pub open spec fn kernels_accept<T: R2rScalar, F: Fn(&[T], usize) -> Result<Vec<T>, LocalR2rError>>(&self, kernels: Seq<F>) -> bool {
        forall|stage: int|
            0 <= stage < kernels.len() ==> self.kernel_accepts::<T, F>(
                stage,
                #[trigger] kernels[stage],
            )
    }

    proof fn lemma_stations_hold<T: R2rScalar, F: Fn(&[T], usize) -> Result<Vec<T>, LocalR2rError>>(
        &self,
        direction: Direction,
        kernels: Seq<F>,
        step: Step,
        line: usize,
    )
        requires
            self.wf(),
            kernels.len() == self.stages@.len(),
            self.kernels_accept::<T, F>(kernels),
            self.lines_fit(line),
            step.work is Kernel,
            step.work->Kernel_0 < self.stages@.len(),
        ensures
            station_holds::<T, T, R2rError, R2rStation<F, N, M>>(
                self.spec_station(direction, step, &kernels[step.work->Kernel_0 as int]),
                self.elements_at(step.work->Kernel_0 as int),
                self.elements_at(step.work->Kernel_0 as int),
                line,
            ),
    {
        let stage = step.work->Kernel_0 as int;
        let station = self.spec_station(direction, step, &kernels[stage]);
        assert(self.line_fits(stage, line));
        assert(self.kernel_accepts::<T, F>(stage, kernels[stage]));
        assert(self.stages@[stage].input == self.stages@[stage].output);
        assert forall|source: Seq<T>, original: Seq<T>, result: Seq<T>, outcome: Result<(), R2rError>|
            #[trigger]
            station.leaves(source, original, result, line, outcome) && source.len()
                == self.elements_at(stage) && original.len() == self.elements_at(stage) implies outcome is Ok by {
            match self.locals@[stage].plan() {
                None => {},
                Some(plan) => {
                    lemma_sweep_holds::<T, T, LocalR2rError, F>(
                        kernels[stage],
                        station.pencil.stride_along(station.axis as int),
                        source,
                        original,
                        result,
                        line,
                        r2r_lens(plan, line),
                        as_r2r_sweep(outcome),
                    );
                },
            }
        }
    }

    proof fn lemma_layouts(&self)
        requires
            self.wf(),
        ensures
            all_wf(outputs_of(self.stages@)),
            self.itinerary().wf(),
            self.itinerary().stages == self.stages@.len(),
    {
        assert(self.stages.len() == self.stages@.len());
        assert forall|i: int| 0 <= i < outputs_of(self.stages@).len() implies (
        #[trigger] outputs_of(self.stages@)[i]).wf() by {
            assert(self.stages@[i].wf());
        }
    }
}

/// Where the values of an out-of-place execution are.
pub open spec fn r2r_lies<T: R2rScalar, F, X, const N: usize, const M: usize>(
    crew: R2rCrew<T, F, X, N, M>,
    line: usize,
    at: Place,
    state: R2rTask<T, N, M>,
) -> bool {
    &&& state.1.line_buffer@.len() == line
    &&& single_lies(
        outputs_of(crew.core.stages@),
        crew.core.extra_shape.element_count as int,
        crew.direction == Direction::Forward,
        at,
        crew.source.data@.len() as int,
        state.1.intermediate,
        state.0.data@.len() as int,
    )
}

proof fn lemma_r2r_course<T: R2rScalar, F: Fn(&[T], usize) -> Result<Vec<T>, LocalR2rError>, X: Fn(usize, Passage, Load<T, N, M>) -> (Load<T, N, M>, Result<(), FftError>), const N: usize, const M: usize>(crew: R2rCrew<T, F, X, N, M>, line: usize)
    requires
        crew.able(),
        crew.core.kernels_accept::<T, F>(crew.kernels@),
        crew.core.lines_fit(line),
        leads_on::<T, X, N, M>(
            *crew.exchange,
            crew.core.transitions@,
            crew.direction,
            outputs_of(crew.core.stages@),
        ),
    ensures
        keeps_course::<R2rTask<T, N, M>, R2rError, R2rCrew<T, F, X, N, M>>(
            crew,
            crew.core.itinerary(),
            crew.direction == Direction::Forward,
            |step: Step| true,
            |at: Place, state: R2rTask<T, N, M>| r2r_lies(crew, line, at, state),
        ),
{
    let route = crew.core.itinerary();
    let forward = crew.direction == Direction::Forward;
    let layouts = outputs_of(crew.core.stages@);
    let extra = crew.core.extra_shape.element_count as int;
    let entry = crew.core.entry_pencil(crew.direction);
    let lies = |at: Place, state: R2rTask<T, N, M>| r2r_lies(crew, line, at, state);
    crew.core.lemma_layouts();
    assert forall|step: Step, at: Place, from: R2rTask<T, N, M>, to: R2rTask<T, N, M>, outcome: Result<(), R2rError>|
        #![trigger next_place(route, forward, step, at), crew.does(step, from, to, outcome)]
        crew.does(step, from, to, outcome) && lies(at, from) && next_place(route, forward, step, at)
            is Some implies outcome is Ok && lies(next_place(route, forward, step, at)->0, to) by {
        match step.work {
            Work::Exchange(index) => {
                lemma_carried_holds::<T, R2rError, X, N, M>(
                    *crew.exchange,
                    crew.core.transitions@,
                    crew.direction,
                    layouts,
                    index,
                    (from.1.intermediate, from.1.transpose),
                    (to.1.intermediate, to.1.transpose),
                    outcome,
                    extra,
                    entry,
                );
            },
            _ => {
                let stage = crew.core.stage_of(step);
                let station = crew.core.spec_station(crew.direction, step, &crew.kernels@[stage]);
                if step.work is Kernel {
                    crew.core.lemma_stations_hold::<T, F>(crew.direction, crew.kernels@, step, line);
                }
                lemma_step_holds::<T, R2rError, R2rStation<F, N, M>, N, M>(
                    route,
                    forward,
                    station,
                    step,
                    at,
                    layouts,
                    extra,
                    crew.source.data@,
                    (from.1.intermediate, to.1.intermediate),
                    (from.0.data@, to.0.data@),
                    line,
                    outcome,
                );
            },
        }
    }
}

/// What an execution out of place is owed success for: no kernel rejects a line, the exchanges
/// succeed, and the arguments are made for the plan.
pub open spec fn r2r_owed<T: R2rScalar, F: Fn(&[T], usize) -> Result<Vec<T>, LocalR2rError>, X: Fn(usize, Passage, Load<T, N, M>) -> (Load<T, N, M>, Result<(), FftError>), const N: usize, const M: usize>(
    crew: R2rCrew<T, F, X, N, M>,
    before: R2rTask<T, N, M>,
) -> bool {
    &&& crew.core.kernels_accept::<T, F>(crew.kernels@)
    &&& crew.core.lines_fit(before.1.line_buffer@.len() as usize)
    &&& leads_on::<T, X, N, M>(
        *crew.exchange,
        crew.core.transitions@,
        crew.direction,
        outputs_of(crew.core.stages@),
    )
    &&& in_order(
        before.1.intermediate,
        crew.core.extra_shape.element_count as int,
        crew.core.entry_pencil(crew.direction),
    )
    &&& registered(
        before.1.intermediate,
        outputs_of(crew.core.stages@),
        0,
        crew.core.stages@.len() as int,
    )
    &&& crew.source.data@.len() == crew.core.elements_at(
        if crew.direction == Direction::Forward {
            0
        } else {
            crew.core.stages@.len() - 1
        },
    )
    &&& before.0.data@.len() == crew.core.elements_at(
        if crew.direction == Direction::Forward {
            crew.core.stages@.len() - 1
        } else {
            0
        },
    )
}

/// An execution of a real-to-real or Hartley plan out of place that starts on all processes
/// succeeds where no kernel rejects a line, the exchanges succeed, and the arguments are made for
/// the plan.
pub proof fn law_r2r_succeeds<T: R2rScalar, F: Fn(&[T], usize) -> Result<Vec<T>, LocalR2rError>, X: Fn(usize, Passage, Load<T, N, M>) -> (Load<T, N, M>, Result<(), FftError>), Q: Fn(u64, &Vec<u64>) -> Result<(), FftError>, A: Fn(bool) -> bool, const N: usize, const M: usize>(
    crew: R2rCrew<T, F, X, N, M>,
    launch: Launch<R2rError>,
    same_plan: Q,
    agree: A,
    eager: Seq<bool>,
    before: R2rTask<T, N, M>,
    after: R2rTask<T, N, M>,
    outcome: Result<(), R2rError>,
)
    requires
        crew.able(),
        executed(
            launch,
            crew.core.descriptor,
            same_plan,
            agree,
            InTurn { crew: &crew },
            before,
            after,
            outcome,
        ),
        launch.steps@ == crew.core.itinerary().list(crew.direction, Mode::OutOfPlace, eager),
        ready(launch, crew.core.descriptor, same_plan, agree),
        r2r_owed(crew, before),
    ensures
        outcome is Ok,
        steps_run(InTurn { crew: &crew }, agree, launch.steps@, before, after, Ok::<(), R2rError>(())),
{
    let route = crew.core.itinerary();
    let forward = crew.direction == Direction::Forward;
    let line = before.1.line_buffer@.len() as usize;
    let lies = |at: Place, state: R2rTask<T, N, M>| r2r_lies(crew, line, at, state);
    let steps = launch.steps@;
    crew.core.lemma_layouts();
    lemma_r2r_course(crew, line);
    route.law_led_there(Mode::OutOfPlace, eager);
    route.law_led_home(Mode::OutOfPlace, eager);
    let start = if forward {
        route.start_there(Mode::OutOfPlace)
    } else {
        route.start_home(Mode::OutOfPlace)
    };
    lemma_course_holds::<R2rTask<T, N, M>, R2rError, R2rCrew<T, F, X, N, M>>(crew, route, forward, steps, start, |step: Step| true, lies);
    let sound = |index: int, state: R2rTask<T, N, M>| on_course(route, forward, steps, start, lies, index, state);
    assert(before.1.line_buffer.len() == before.1.line_buffer@.len());
    assert(steps.take(0) =~= Seq::<Step>::empty());
    assert(led(route, forward, steps.take(0), start) == Some(start));
    assert(lies(start, before));
    assert(sound(0, before));
    law_execution_succeeds::<R2rTask<T, N, M>, R2rError, Q, R2rCrew<T, F, X, N, M>, A>(
        launch,
        crew.core.descriptor,
        same_plan,
        agree,
        crew,
        before,
        after,
        outcome,
        sound,
    );
    match outcome {
        Ok(done) => {
            assert(outcome == Ok::<(), R2rError>(()));
        },
        Err(_) => {},
    }
}

/// Where the values of an in-place execution are.
pub open spec fn r2r_lies_in_place<T: R2rScalar, F, X, const N: usize, const M: usize>(
    crew: R2rInPlaceCrew<F, X, N, M>,
    line: usize,
    entry: Pencil<N, M>,
    at: Place,
    state: R2rInPlaceTask<T, N, M>,
) -> bool {
    &&& state.1.line_buffer@.len() == line
    &&& in_order(state.0.array, crew.core.extra_shape.element_count as int, entry)
    &&& registered(state.0.array, outputs_of(crew.core.stages@), 0, crew.core.stages@.len() as int)
    &&& at.slot == Slot::Complex
    &&& 0 <= at.stage < crew.core.stages@.len()
    &&& stands_at(state.0.array, crew.core.elements_at(at.stage))
}

/// What an execution in place is owed success for: no kernel rejects a line, the exchanges succeed,
/// and the array is in order.
pub open spec fn r2r_owed_in_place<T: R2rScalar, F: Fn(&[T], usize) -> Result<Vec<T>, LocalR2rError>, X: Fn(usize, Passage, Load<T, N, M>) -> (Load<T, N, M>, Result<(), FftError>), const N: usize, const M: usize>(
    crew: R2rInPlaceCrew<F, X, N, M>,
    before: R2rInPlaceTask<T, N, M>,
) -> bool {
    &&& crew.core.kernels_accept::<T, F>(crew.kernels@)
    &&& crew.core.lines_fit(before.1.line_buffer@.len() as usize)
    &&& leads_on::<T, X, N, M>(
        *crew.exchange,
        crew.core.transitions@,
        crew.direction,
        outputs_of(crew.core.stages@),
    )
    &&& before.0.array.wf()
    &&& registered(before.0.array, outputs_of(crew.core.stages@), 0, crew.core.stages@.len() as int)
    &&& all_wf(before.0.array.pencils@)
    &&& before.0.array.extra_shape.element_count == crew.core.extra_shape.element_count
    &&& stands_at(
        before.0.array,
        crew.core.elements_at(
            if crew.direction == Direction::Forward {
                0
            } else {
                crew.core.stages@.len() - 1
            },
        ),
    )
}

/// An execution of a real-to-real or Hartley plan in place that starts on all processes succeeds
/// where no kernel rejects a line, the exchanges succeed, and the array is in order.
pub proof fn law_r2r_in_place_succeeds<T: R2rScalar, F: Fn(&[T], usize) -> Result<Vec<T>, LocalR2rError>, X: Fn(usize, Passage, Load<T, N, M>) -> (Load<T, N, M>, Result<(), FftError>), Q: Fn(u64, &Vec<u64>) -> Result<(), FftError>, A: Fn(bool) -> bool, const N: usize, const M: usize>(
    crew: R2rInPlaceCrew<F, X, N, M>,
    launch: Launch<R2rError>,
    same_plan: Q,
    agree: A,
    eager: Seq<bool>,
    before: R2rInPlaceTask<T, N, M>,
    after: R2rInPlaceTask<T, N, M>,
    outcome: Result<(), R2rError>,
)
    requires
        Crew::<R2rInPlaceTask<T, N, M>, R2rError>::able(&crew),
        executed_in_place(
            launch,
            crew.core.descriptor,
            same_plan,
            agree,
            InTurn { crew: &crew },
            before,
            after,
            outcome,
        ),
        launch.steps@ == crew.core.itinerary().list(crew.direction, Mode::InPlace, eager),
        ready(launch, crew.core.descriptor, same_plan, agree),
        r2r_owed_in_place(crew, before),
    ensures
        outcome is Ok,
        exists|left: R2rInPlaceTask<T, N, M>|
            {
                &&& #[trigger] steps_run(
                    InTurn { crew: &crew },
                    agree,
                    launch.steps@,
                    (before.0.interrupted(), before.1),
                    left,
                    Ok::<(), R2rError>(()),
                )
                &&& after == (left.0.completed(launch.direction), left.1)
            },
{
    let route = crew.core.itinerary();
    let forward = crew.direction == Direction::Forward;
    let line = before.1.line_buffer@.len() as usize;
    let extra = crew.core.extra_shape.element_count as int;
    let entry = before.0.array.pencils@[0];
    let layouts = outputs_of(crew.core.stages@);
    let lies = |at: Place, state: R2rInPlaceTask<T, N, M>| r2r_lies_in_place(crew, line, entry, at, state);
    let steps = launch.steps@;
    crew.core.lemma_layouts();
    assert forall|step: Step, at: Place, from: R2rInPlaceTask<T, N, M>, to: R2rInPlaceTask<T, N, M>, local: Result<(), R2rError>|
        #![trigger next_place(route, forward, step, at), crew.does(step, from, to, local)]
        crew.does(step, from, to, local) && lies(at, from) && next_place(route, forward, step, at)
            is Some && stays_inside(step) implies local is Ok && lies(next_place(route, forward, step, at)->0, to) by {
        match step.work {
            Work::Exchange(index) => {
                lemma_carried_holds::<T, R2rError, X, N, M>(
                    *crew.exchange,
                    crew.core.transitions@,
                    crew.direction,
                    layouts,
                    index,
                    (from.0.array, from.1.transpose),
                    (to.0.array, to.1.transpose),
                    local,
                    extra,
                    entry,
                );
            },
            Work::Kernel(stage) => {
                crew.core.lemma_stations_hold::<T, F>(crew.direction, crew.kernels@, step, line);
                lemma_applied_holds::<T, R2rError, R2rStation<F, N, M>, N, M>(
                    crew.core.spec_station(crew.direction, step, &crew.kernels@[stage as int]),
                    from.0.array,
                    to.0.array,
                    line,
                    local,
                    extra,
                    entry,
                    crew.core.elements_at(at.stage),
                );
            },
            _ => {},
        }
    }
    route.law_led_there(Mode::InPlace, eager);
    route.law_led_home(Mode::InPlace, eager);
    let start = if forward {
        route.start_there(Mode::InPlace)
    } else {
        route.start_home(Mode::InPlace)
    };
    route.law_stays_inside(eager);
    lemma_course_holds::<R2rInPlaceTask<T, N, M>, R2rError, R2rInPlaceCrew<F, X, N, M>>(crew, route, forward, steps, start, |step: Step| stays_inside(step), lies);
    let sound = |index: int, state: R2rInPlaceTask<T, N, M>| on_course(route, forward, steps, start, lies, index, state);
    let begun = (Transacted::interrupted(before.0), before.1);
    assert(before.1.line_buffer.len() == before.1.line_buffer@.len());
    assert(steps.take(0) =~= Seq::<Step>::empty());
    assert(led(route, forward, steps.take(0), start) == Some(start));
    assert(lies(start, begun));
    assert(sound(0, begun));
    law_execution_in_place_succeeds::<R2rInPlaceArray<T, N, M>, R2rInPlaceWorkspace<T, N, M>, R2rError, Q, R2rInPlaceCrew<F, X, N, M>, A>(
        launch,
        crew.core.descriptor,
        same_plan,
        agree,
        crew,
        before,
        after,
        outcome,
        sound,
    );
    match outcome {
        Ok(done) => {
            assert(outcome == Ok::<(), R2rError>(()));
        },
        Err(_) => {},
    }
}

} // verus!
