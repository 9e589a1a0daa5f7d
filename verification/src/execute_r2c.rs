//! Executions of real-to-complex plans.

use vstd::prelude::*;

use crate::carrier::Load;
use crate::clock::execute_timed;
use crate::clock::execute_timed_in_place;
use crate::clock::executed_timed;
use crate::clock::executed_timed_in_place;
use crate::crew::Crew;
use crate::crew::InTurn;
use crate::crew::Overlapped;
use crate::crew_r2c::R2cForwardCrew;
use crate::crew_r2c::R2cForwardOverlapCrew;
use crate::crew_r2c::R2cForwardTask;
use crate::crew_r2c::R2cReverseCrew;
use crate::crew_r2c::R2cReverseOverlapCrew;
use crate::crew_r2c::R2cReverseTask;
use crate::crew_r2c_ip::R2cInPlaceForwardCrew;
use crate::crew_r2c_ip::R2cInPlaceReverseCrew;
use crate::crew_r2c_ip::R2cInPlaceTask;
use crate::error::FftError;
use crate::error::FftOverlapError;
use crate::error::LocalC2cError;
use crate::error::LocalR2cError;
use crate::error::OverlapError;
use crate::error::R2cError;
use crate::inspect::Inspector;
use crate::layout::Direction;
use crate::mixed_c2c::run_operation;
use crate::r2c::r2c_in_place_error;
use crate::r2c::r2c_out_of_place_error;
use crate::r2c::stored_len;
use crate::run::Launch;
use crate::run::OverlapLaunch;
use crate::run::execute;
use crate::run::execute_in_place;
use crate::run::execute_overlapped;
use crate::run::executed;
use crate::run::executed_in_place;
use crate::run::executed_overlapped;
use crate::scalar::Complex;
use crate::scalar::FftReal;
use crate::schedule::Mode;
use crate::timing::TransformTiming;
use crate::transition::Passage;
use crate::transition::eager_exchanges;
use crate::transition::overlaps;
use crate::words::Operation;
use crate::words::PlanFamily;

verus! {

impl<'a, R: FftReal, FX: Fn(&[R], usize) -> Result<Vec<Complex<R>>, LocalR2cError>, FC: Fn(&[Complex<R>], usize) -> Result<Vec<Complex<R>>, LocalC2cError>, XR: Fn(usize, Passage, Load<R, N, M>) -> (Load<R, N, M>, Result<(), FftError>), XC: Fn(usize, Passage, Load<Complex<R>, N, M>) -> (Load<Complex<R>, N, M>, Result<(), FftError>), const N: usize, const M: usize> R2cForwardCrew<'a, R, FX, FC, XR, XC, N, M> {
    /// Executes a real-to-complex plan forward, out of place; nothing is written unless all
    /// processes agree to start.
    pub fn execute<Q: Fn(u64, &Vec<u64>) -> Result<(), FftError>, A: Fn(bool) -> bool>(
        &self,
        same_plan: &Q,
        agree: &A,
        state: R2cForwardTask<R, N, M>,
    ) -> (result: (R2cForwardTask<R, N, M>, Result<(), R2cError>))
        requires
            Crew::<R2cForwardTask<R, N, M>, R2cError>::able(self),
            Crew::<R2cForwardTask<R, N, M>, R2cError>::fit(self, state),
            forall|operation: u64, given: &Vec<u64>| #[trigger]
                same_plan.requires((operation, given)),
            forall|valid: bool| #[trigger] agree.requires((valid,)),
        ensures
            exists|launch: Launch<R2cError>|
                launch.describes(
                    run_operation(PlanFamily::R2c, Direction::Forward, false, false),
                    Direction::Forward,
                    r2c_out_of_place_error(*self.core, Direction::Forward, *self.source, state.0, state.1),
                    self.core.itinerary().list(
                        Direction::Forward,
                        Mode::OutOfPlace,
                        eager_exchanges(self.core.transitions@, Direction::Forward),
                    ),
                ) && #[trigger] executed(
                    launch,
                    self.core.descriptor,
                    *same_plan,
                    *agree,
                    InTurn { crew: self },
                    state,
                    result.0,
                    result.1,
                ),
    {
        let launch: Launch<R2cError> = self.core.launch(Direction::Forward, false, self.source, &state.0, &state.1);
        let ghost asked = launch;
        let ghost before = state;
        let result: (R2cForwardTask<R, N, M>, Result<(), R2cError>) = execute(
            launch,
            &self.core.descriptor,
            same_plan,
            agree,
            &InTurn { crew: self },
            state,
        );
        assert(executed(
            asked,
            self.core.descriptor,
            *same_plan,
            *agree,
            InTurn { crew: self },
            before,
            result.0,
            result.1,
        ));
        result
    }

    /// Executes a real-to-complex plan forward, out of place and measures each step; nothing is
    /// written unless all processes agree to start.
    pub fn execute_timed<Q: Fn(u64, &Vec<u64>) -> Result<(), FftError>, A: Fn(bool) -> bool, K: Fn() -> u64>(
        &self,
        now: &K,
        same_plan: &Q,
        agree: &A,
        state: R2cForwardTask<R, N, M>,
    ) -> (result: (R2cForwardTask<R, N, M>, Result<TransformTiming<N>, R2cError>))
        requires
            Crew::<R2cForwardTask<R, N, M>, R2cError>::able(self),
            Crew::<R2cForwardTask<R, N, M>, R2cError>::fit(self, state),
            forall|operation: u64, given: &Vec<u64>| #[trigger]
                same_plan.requires((operation, given)),
            forall|valid: bool| #[trigger] agree.requires((valid,)),
            now.requires(()),
        ensures
            exists|launch: Launch<R2cError>|
                launch.describes(
                    run_operation(PlanFamily::R2c, Direction::Forward, false, true),
                    Direction::Forward,
                    r2c_out_of_place_error(*self.core, Direction::Forward, *self.source, state.0, state.1),
                    self.core.itinerary().list(
                        Direction::Forward,
                        Mode::OutOfPlace,
                        eager_exchanges(self.core.transitions@, Direction::Forward),
                    ),
                ) && #[trigger] executed_timed(
                    launch,
                    self.core.descriptor,
                    *same_plan,
                    *agree,
                    *self,
                    *now,
                    state,
                    result.0,
                    result.1,
                ),
    {
        let launch: Launch<R2cError> = self.core.launch(Direction::Forward, true, self.source, &state.0, &state.1);
        let ghost asked = launch;
        let ghost before = state;
        let result: (R2cForwardTask<R, N, M>, Result<TransformTiming<N>, R2cError>) = execute_timed(
            launch,
            &self.core.descriptor,
            same_plan,
            agree,
            self,
            now,
            state,
        );
        assert(executed_timed(
            asked,
            self.core.descriptor,
            *same_plan,
            *agree,
            *self,
            *now,
            before,
            result.0,
            result.1,
        ));
        result
    }
}

impl<'a, R: FftReal, FX: Fn(&[Complex<R>], usize) -> Result<Vec<R>, LocalR2cError>, FC: Fn(&[Complex<R>], usize) -> Result<Vec<Complex<R>>, LocalC2cError>, XR: Fn(usize, Passage, Load<R, N, M>) -> (Load<R, N, M>, Result<(), FftError>), XC: Fn(usize, Passage, Load<Complex<R>, N, M>) -> (Load<Complex<R>, N, M>, Result<(), FftError>), V: Inspector<R, R2cError, N, M>, const N: usize, const M: usize> R2cReverseCrew<'a, R, FX, FC, XR, XC, V, N, M> {
    /// Executes the way back of a real-to-complex plan, out of place; nothing is written unless all
    /// processes agree to start.
    pub fn execute<Q: Fn(u64, &Vec<u64>) -> Result<(), FftError>, A: Fn(bool) -> bool>(
        &self,
        same_plan: &Q,
        agree: &A,
        state: R2cReverseTask<R, N, M>,
    ) -> (result: (R2cReverseTask<R, N, M>, Result<(), R2cError>))
        requires
            Crew::<R2cReverseTask<R, N, M>, R2cError>::able(self),
            Crew::<R2cReverseTask<R, N, M>, R2cError>::fit(self, state),
            self.direction != Direction::Forward,
            forall|operation: u64, given: &Vec<u64>| #[trigger]
                same_plan.requires((operation, given)),
            forall|valid: bool| #[trigger] agree.requires((valid,)),
        ensures
            exists|launch: Launch<R2cError>|
                launch.describes(
                    run_operation(PlanFamily::R2c, self.direction, false, false),
                    self.direction,
                    r2c_out_of_place_error(*self.core, self.direction, *self.source, state.0, state.1),
                    self.core.itinerary().list(
                        self.direction,
                        Mode::OutOfPlace,
                        eager_exchanges(self.core.transitions@, self.direction),
                    ),
                ) && #[trigger] executed(
                    launch,
                    self.core.descriptor,
                    *same_plan,
                    *agree,
                    InTurn { crew: self },
                    state,
                    result.0,
                    result.1,
                ),
    {
        let launch: Launch<R2cError> = self.core.launch(self.direction, false, self.source, &state.0, &state.1);
        let ghost asked = launch;
        let ghost before = state;
        let result: (R2cReverseTask<R, N, M>, Result<(), R2cError>) = execute(
            launch,
            &self.core.descriptor,
            same_plan,
            agree,
            &InTurn { crew: self },
            state,
        );
        assert(executed(
            asked,
            self.core.descriptor,
            *same_plan,
            *agree,
            InTurn { crew: self },
            before,
            result.0,
            result.1,
        ));
        result
    }

    /// Executes the way back of a real-to-complex plan, out of place and measures each step; nothing
    /// is written unless all processes agree to start.
    pub fn execute_timed<Q: Fn(u64, &Vec<u64>) -> Result<(), FftError>, A: Fn(bool) -> bool, K: Fn() -> u64>(
        &self,
        now: &K,
        same_plan: &Q,
        agree: &A,
        state: R2cReverseTask<R, N, M>,
    ) -> (result: (R2cReverseTask<R, N, M>, Result<TransformTiming<N>, R2cError>))
        requires
            Crew::<R2cReverseTask<R, N, M>, R2cError>::able(self),
            Crew::<R2cReverseTask<R, N, M>, R2cError>::fit(self, state),
            self.direction != Direction::Forward,
            forall|operation: u64, given: &Vec<u64>| #[trigger]
                same_plan.requires((operation, given)),
            forall|valid: bool| #[trigger] agree.requires((valid,)),
            now.requires(()),
        ensures
            exists|launch: Launch<R2cError>|
                launch.describes(
                    run_operation(PlanFamily::R2c, self.direction, false, true),
                    self.direction,
                    r2c_out_of_place_error(*self.core, self.direction, *self.source, state.0, state.1),
                    self.core.itinerary().list(
                        self.direction,
                        Mode::OutOfPlace,
                        eager_exchanges(self.core.transitions@, self.direction),
                    ),
                ) && #[trigger] executed_timed(
                    launch,
                    self.core.descriptor,
                    *same_plan,
                    *agree,
                    *self,
                    *now,
                    state,
                    result.0,
                    result.1,
                ),
    {
        let launch: Launch<R2cError> = self.core.launch(self.direction, true, self.source, &state.0, &state.1);
        let ghost asked = launch;
        let ghost before = state;
        let result: (R2cReverseTask<R, N, M>, Result<TransformTiming<N>, R2cError>) = execute_timed(
            launch,
            &self.core.descriptor,
            same_plan,
            agree,
            self,
            now,
            state,
        );
        assert(executed_timed(
            asked,
            self.core.descriptor,
            *same_plan,
            *agree,
            *self,
            *now,
            before,
            result.0,
            result.1,
        ));
        result
    }
}

impl<'a, R: FftReal, FX: Fn(&[R], usize) -> Result<Vec<Complex<R>>, LocalR2cError>, FC: Fn(&[Complex<R>], usize) -> Result<Vec<Complex<R>>, LocalC2cError>, XR: Fn(usize, Passage, Load<R, N, M>) -> (Load<R, N, M>, Result<(), FftError>), XC: Fn(usize, Passage, Load<Complex<R>, N, M>) -> (Load<Complex<R>, N, M>, Result<(), FftError>), YR: Fn(usize, Direction, Option<bool>, Load<R, N, M>) -> (Load<R, N, M>, Result<(), OverlapError<R2cError>>), YC: Fn(usize, Direction, Option<bool>, Load<Complex<R>, N, M>) -> (Load<Complex<R>, N, M>, Result<(), OverlapError<R2cError>>), const N: usize, const M: usize> R2cForwardOverlapCrew<'a, R, FX, FC, XR, XC, YR, YC, N, M> {
    /// Executes a real-to-complex plan forward with kernels inside the receives; nothing is written
    /// unless all processes agree to start.
    pub fn execute<Q: Fn(u64, &Vec<u64>) -> Result<(), FftError>, A: Fn(bool) -> bool>(
        &self,
        same_plan: &Q,
        agree: &A,
        state: R2cForwardTask<R, N, M>,
    ) -> (result: (R2cForwardTask<R, N, M>, Result<(), FftOverlapError<R2cError>>))
        requires
            Crew::<R2cForwardTask<R, N, M>, R2cError>::able(self),
            Crew::<R2cForwardTask<R, N, M>, R2cError>::fit(self, state),
            forall|operation: u64, given: &Vec<u64>| #[trigger]
                same_plan.requires((operation, given)),
            forall|valid: bool| #[trigger] agree.requires((valid,)),
        ensures
            exists|launch: OverlapLaunch<R2cError>|
                launch.describes(
                    (Operation::Overlap { family: PlanFamily::R2c, direction: Direction::Forward }),
                    Direction::Forward,
                    true,
                    r2c_out_of_place_error(*self.crew.core, Direction::Forward, *self.crew.source, state.0, state.1),
                    overlaps(self.crew.core.transitions@, Direction::Forward),
                    self.crew.core.itinerary().list(
                        Direction::Forward,
                        Mode::Overlap,
                        eager_exchanges(self.crew.core.transitions@, Direction::Forward),
                    ),
                ) && #[trigger] executed_overlapped(
                    launch,
                    self.crew.core.descriptor,
                    *same_plan,
                    *agree,
                    Overlapped { crew: self },
                    state,
                    result.0,
                    result.1,
                ),
    {
        let launch: OverlapLaunch<R2cError> = self.crew.core.launch_overlap(Direction::Forward, self.crew.source, &state.0, &state.1);
        let pieces: Overlapped<Self> = Overlapped { crew: self };
        let ghost asked = launch;
        let ghost before = state;
        let result: (R2cForwardTask<R, N, M>, Result<(), FftOverlapError<R2cError>>) = execute_overlapped(
            launch,
            &self.crew.core.descriptor,
            same_plan,
            agree,
            &pieces,
            state,
        );
        assert(executed_overlapped(
            asked,
            self.crew.core.descriptor,
            *same_plan,
            *agree,
            Overlapped { crew: self },
            before,
            result.0,
            result.1,
        ));
        result
    }
}

impl<'a, R: FftReal, FX: Fn(&[Complex<R>], usize) -> Result<Vec<R>, LocalR2cError>, FC: Fn(&[Complex<R>], usize) -> Result<Vec<Complex<R>>, LocalC2cError>, XR: Fn(usize, Passage, Load<R, N, M>) -> (Load<R, N, M>, Result<(), FftError>), XC: Fn(usize, Passage, Load<Complex<R>, N, M>) -> (Load<Complex<R>, N, M>, Result<(), FftError>), V: Inspector<R, R2cError, N, M>, YR: Fn(usize, Direction, Option<bool>, Load<R, N, M>) -> (Load<R, N, M>, Result<(), OverlapError<R2cError>>), YC: Fn(usize, Direction, Option<bool>, Load<Complex<R>, N, M>) -> (Load<Complex<R>, N, M>, Result<(), OverlapError<R2cError>>), const N: usize, const M: usize> R2cReverseOverlapCrew<'a, R, FX, FC, XR, XC, V, YR, YC, N, M> {
    /// Executes the way back of a real-to-complex plan with kernels inside the receives; nothing is
    /// written unless all processes agree to start.
    pub fn execute<Q: Fn(u64, &Vec<u64>) -> Result<(), FftError>, A: Fn(bool) -> bool>(
        &self,
        same_plan: &Q,
        agree: &A,
        state: R2cReverseTask<R, N, M>,
    ) -> (result: (R2cReverseTask<R, N, M>, Result<(), FftOverlapError<R2cError>>))
        requires
            Crew::<R2cReverseTask<R, N, M>, R2cError>::able(self),
            Crew::<R2cReverseTask<R, N, M>, R2cError>::fit(self, state),
            self.crew.direction != Direction::Forward,
            forall|operation: u64, given: &Vec<u64>| #[trigger]
                same_plan.requires((operation, given)),
            forall|valid: bool| #[trigger] agree.requires((valid,)),
        ensures
            exists|launch: OverlapLaunch<R2cError>|
                launch.describes(
                    (Operation::Overlap { family: PlanFamily::R2c, direction: self.crew.direction }),
                    self.crew.direction,
                    true,
                    r2c_out_of_place_error(*self.crew.core, self.crew.direction, *self.crew.source, state.0, state.1),
                    overlaps(self.crew.core.transitions@, self.crew.direction),
                    self.crew.core.itinerary().list(
                        self.crew.direction,
                        Mode::Overlap,
                        eager_exchanges(self.crew.core.transitions@, self.crew.direction),
                    ),
                ) && #[trigger] executed_overlapped(
                    launch,
                    self.crew.core.descriptor,
                    *same_plan,
                    *agree,
                    Overlapped { crew: self },
                    state,
                    result.0,
                    result.1,
                ),
    {
        let launch: OverlapLaunch<R2cError> = self.crew.core.launch_overlap(self.crew.direction, self.crew.source, &state.0, &state.1);
        let pieces: Overlapped<Self> = Overlapped { crew: self };
        let ghost asked = launch;
        let ghost before = state;
        let result: (R2cReverseTask<R, N, M>, Result<(), FftOverlapError<R2cError>>) = execute_overlapped(
            launch,
            &self.crew.core.descriptor,
            same_plan,
            agree,
            &pieces,
            state,
        );
        assert(executed_overlapped(
            asked,
            self.crew.core.descriptor,
            *same_plan,
            *agree,
            Overlapped { crew: self },
            before,
            result.0,
            result.1,
        ));
        result
    }
}

impl<'a, FX, FC, XR, XC, const N: usize, const M: usize> R2cInPlaceForwardCrew<'a, FX, FC, XR, XC, N, M> {
    /// Executes a real-to-complex plan forward in place; from the start on the array counts as
    /// interrupted until all is done.
    pub fn execute<R: FftReal, Q: Fn(u64, &Vec<u64>) -> Result<(), FftError>, A: Fn(bool) -> bool>(
        &self,
        same_plan: &Q,
        agree: &A,
        state: R2cInPlaceTask<R, N, M>,
    ) -> (result: (R2cInPlaceTask<R, N, M>, Result<(), R2cError>)) where
            FX: Fn(&[R], usize) -> Result<Vec<Complex<R>>, LocalR2cError>,
            FC: Fn(&[Complex<R>], usize) -> Result<Vec<Complex<R>>, LocalC2cError>,
            XR: Fn(usize, Passage, Load<R, N, M>) -> (Load<R, N, M>, Result<(), FftError>),
            XC: Fn(usize, Passage, Load<Complex<R>, N, M>) -> (Load<Complex<R>, N, M>, Result<(), FftError>),

        requires
            Crew::<R2cInPlaceTask<R, N, M>, R2cError>::able(self),
            Crew::<R2cInPlaceTask<R, N, M>, R2cError>::fit(self, state),
            forall|operation: u64, given: &Vec<u64>| #[trigger]
                same_plan.requires((operation, given)),
            forall|valid: bool| #[trigger] agree.requires((valid,)),
        ensures
            exists|launch: Launch<R2cError>, capacity: usize|
                stored_len(state.0.shared) <= capacity && launch.describes(
                    run_operation(PlanFamily::R2c, Direction::Forward, true, false),
                    Direction::Forward,
                    #[trigger] r2c_in_place_error(*self.core, Direction::Forward, state.0, state.1, capacity),
                    self.core.itinerary().list(
                        Direction::Forward,
                        Mode::InPlace,
                        eager_exchanges(self.core.transitions@, Direction::Forward),
                    ),
                ) && #[trigger] executed_in_place(
                    launch,
                    self.core.descriptor,
                    *same_plan,
                    *agree,
                    InTurn { crew: self },
                    state,
                    result.0,
                    result.1,
                ),
    {
        let launch: Launch<R2cError> = self.core.launch_in_place(Direction::Forward, false, &state.0, &state.1);
        let ghost asked = launch;
        let ghost before = state;
        let result: (R2cInPlaceTask<R, N, M>, Result<(), R2cError>) = execute_in_place(
            launch,
            &self.core.descriptor,
            same_plan,
            agree,
            &InTurn { crew: self },
            state,
        );
        assert(executed_in_place(
            asked,
            self.core.descriptor,
            *same_plan,
            *agree,
            InTurn { crew: self },
            before,
            result.0,
            result.1,
        ));
        result
    }

    /// Executes a real-to-complex plan forward in place and measures each step; from the start on the
    /// array counts as interrupted until all is done.
    pub fn execute_timed<R: FftReal, Q: Fn(u64, &Vec<u64>) -> Result<(), FftError>, A: Fn(bool) -> bool, K: Fn() -> u64>(
        &self,
        now: &K,
        same_plan: &Q,
        agree: &A,
        state: R2cInPlaceTask<R, N, M>,
    ) -> (result: (R2cInPlaceTask<R, N, M>, Result<TransformTiming<N>, R2cError>)) where
            FX: Fn(&[R], usize) -> Result<Vec<Complex<R>>, LocalR2cError>,
            FC: Fn(&[Complex<R>], usize) -> Result<Vec<Complex<R>>, LocalC2cError>,
            XR: Fn(usize, Passage, Load<R, N, M>) -> (Load<R, N, M>, Result<(), FftError>),
            XC: Fn(usize, Passage, Load<Complex<R>, N, M>) -> (Load<Complex<R>, N, M>, Result<(), FftError>),

        requires
            Crew::<R2cInPlaceTask<R, N, M>, R2cError>::able(self),
            Crew::<R2cInPlaceTask<R, N, M>, R2cError>::fit(self, state),
            forall|operation: u64, given: &Vec<u64>| #[trigger]
                same_plan.requires((operation, given)),
            forall|valid: bool| #[trigger] agree.requires((valid,)),
            now.requires(()),
        ensures
            exists|launch: Launch<R2cError>, capacity: usize|
                stored_len(state.0.shared) <= capacity && launch.describes(
                    run_operation(PlanFamily::R2c, Direction::Forward, true, true),
                    Direction::Forward,
                    #[trigger] r2c_in_place_error(*self.core, Direction::Forward, state.0, state.1, capacity),
                    self.core.itinerary().list(
                        Direction::Forward,
                        Mode::InPlace,
                        eager_exchanges(self.core.transitions@, Direction::Forward),
                    ),
                ) && #[trigger] executed_timed_in_place(
                    launch,
                    self.core.descriptor,
                    *same_plan,
                    *agree,
                    *self,
                    *now,
                    state,
                    result.0,
                    result.1,
                ),
    {
        let launch: Launch<R2cError> = self.core.launch_in_place(Direction::Forward, true, &state.0, &state.1);
        let ghost asked = launch;
        let ghost before = state;
        let result: (R2cInPlaceTask<R, N, M>, Result<TransformTiming<N>, R2cError>) = execute_timed_in_place(
            launch,
            &self.core.descriptor,
            same_plan,
            agree,
            self,
            now,
            state,
        );
        assert(executed_timed_in_place(
            asked,
            self.core.descriptor,
            *same_plan,
            *agree,
            *self,
            *now,
            before,
            result.0,
            result.1,
        ));
        result
    }
}

impl<'a, FX, FC, XR, XC, V, const N: usize, const M: usize> R2cInPlaceReverseCrew<'a, FX, FC, XR, XC, V, N, M> {
    /// Executes the way back of a real-to-complex plan in place; from the start on the array counts
    /// as interrupted until all is done.
    pub fn execute<R: FftReal, Q: Fn(u64, &Vec<u64>) -> Result<(), FftError>, A: Fn(bool) -> bool>(
        &self,
        same_plan: &Q,
        agree: &A,
        state: R2cInPlaceTask<R, N, M>,
    ) -> (result: (R2cInPlaceTask<R, N, M>, Result<(), R2cError>)) where
            FX: Fn(&[Complex<R>], usize) -> Result<Vec<R>, LocalR2cError>,
            FC: Fn(&[Complex<R>], usize) -> Result<Vec<Complex<R>>, LocalC2cError>,
            XR: Fn(usize, Passage, Load<R, N, M>) -> (Load<R, N, M>, Result<(), FftError>),
            XC: Fn(usize, Passage, Load<Complex<R>, N, M>) -> (Load<Complex<R>, N, M>, Result<(), FftError>),
            V: Inspector<R, R2cError, N, M>,

        requires
            Crew::<R2cInPlaceTask<R, N, M>, R2cError>::able(self),
            Crew::<R2cInPlaceTask<R, N, M>, R2cError>::fit(self, state),
            self.direction != Direction::Forward,
            forall|operation: u64, given: &Vec<u64>| #[trigger]
                same_plan.requires((operation, given)),
            forall|valid: bool| #[trigger] agree.requires((valid,)),
        ensures
            exists|launch: Launch<R2cError>, capacity: usize|
                stored_len(state.0.shared) <= capacity && launch.describes(
                    run_operation(PlanFamily::R2c, self.direction, true, false),
                    self.direction,
                    #[trigger] r2c_in_place_error(*self.core, self.direction, state.0, state.1, capacity),
                    self.core.itinerary().list(
                        self.direction,
                        Mode::InPlace,
                        eager_exchanges(self.core.transitions@, self.direction),
                    ),
                ) && #[trigger] executed_in_place(
                    launch,
                    self.core.descriptor,
                    *same_plan,
                    *agree,
                    InTurn { crew: self },
                    state,
                    result.0,
                    result.1,
                ),
    {
        let launch: Launch<R2cError> = self.core.launch_in_place(self.direction, false, &state.0, &state.1);
        let ghost asked = launch;
        let ghost before = state;
        let result: (R2cInPlaceTask<R, N, M>, Result<(), R2cError>) = execute_in_place(
            launch,
            &self.core.descriptor,
            same_plan,
            agree,
            &InTurn { crew: self },
            state,
        );
        assert(executed_in_place(
            asked,
            self.core.descriptor,
            *same_plan,
            *agree,
            InTurn { crew: self },
            before,
            result.0,
            result.1,
        ));
        result
    }

    /// Executes the way back of a real-to-complex plan in place and measures each step; from the
    /// start on the array counts as interrupted until all is done.
    pub fn execute_timed<R: FftReal, Q: Fn(u64, &Vec<u64>) -> Result<(), FftError>, A: Fn(bool) -> bool, K: Fn() -> u64>(
        &self,
        now: &K,
        same_plan: &Q,
        agree: &A,
        state: R2cInPlaceTask<R, N, M>,
    ) -> (result: (R2cInPlaceTask<R, N, M>, Result<TransformTiming<N>, R2cError>)) where
            FX: Fn(&[Complex<R>], usize) -> Result<Vec<R>, LocalR2cError>,
            FC: Fn(&[Complex<R>], usize) -> Result<Vec<Complex<R>>, LocalC2cError>,
            XR: Fn(usize, Passage, Load<R, N, M>) -> (Load<R, N, M>, Result<(), FftError>),
            XC: Fn(usize, Passage, Load<Complex<R>, N, M>) -> (Load<Complex<R>, N, M>, Result<(), FftError>),
            V: Inspector<R, R2cError, N, M>,

        requires
            Crew::<R2cInPlaceTask<R, N, M>, R2cError>::able(self),
            Crew::<R2cInPlaceTask<R, N, M>, R2cError>::fit(self, state),
            self.direction != Direction::Forward,
            forall|operation: u64, given: &Vec<u64>| #[trigger]
                same_plan.requires((operation, given)),
            forall|valid: bool| #[trigger] agree.requires((valid,)),
            now.requires(()),
        ensures
            exists|launch: Launch<R2cError>, capacity: usize|
                stored_len(state.0.shared) <= capacity && launch.describes(
                    run_operation(PlanFamily::R2c, self.direction, true, true),
                    self.direction,
                    #[trigger] r2c_in_place_error(*self.core, self.direction, state.0, state.1, capacity),
                    self.core.itinerary().list(
                        self.direction,
                        Mode::InPlace,
                        eager_exchanges(self.core.transitions@, self.direction),
                    ),
                ) && #[trigger] executed_timed_in_place(
                    launch,
                    self.core.descriptor,
                    *same_plan,
                    *agree,
                    *self,
                    *now,
                    state,
                    result.0,
                    result.1,
                ),
    {
        let launch: Launch<R2cError> = self.core.launch_in_place(self.direction, true, &state.0, &state.1);
        let ghost asked = launch;
        let ghost before = state;
        let result: (R2cInPlaceTask<R, N, M>, Result<TransformTiming<N>, R2cError>) = execute_timed_in_place(
            launch,
            &self.core.descriptor,
            same_plan,
            agree,
            self,
            now,
            state,
        );
        assert(executed_timed_in_place(
            asked,
            self.core.descriptor,
            *same_plan,
            *agree,
            *self,
            *now,
            before,
            result.0,
            result.1,
        ));
        result
    }
}

} // verus!
