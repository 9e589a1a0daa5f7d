//! Executions of mixed complex plans.

use vstd::prelude::*;

use crate::carrier::Load;
use crate::clock::execute_timed;
use crate::clock::execute_timed_in_place;
use crate::clock::executed_timed;
use crate::clock::executed_timed_in_place;
use crate::crew::Crew;
use crate::crew::InTurn;
use crate::crew::Overlapped;
use crate::crew_mixed_c2c::MixedC2cCrew;
use crate::crew_mixed_c2c::MixedC2cInPlaceCrew;
use crate::crew_mixed_c2c::MixedC2cInPlaceTask;
use crate::crew_mixed_c2c::MixedC2cOverlapCrew;
use crate::crew_mixed_c2c::MixedC2cTask;
use crate::error::FftError;
use crate::error::FftOverlapError;
use crate::error::MixedError;
use crate::error::OverlapError;
use crate::layout::Direction;
use crate::layout::TransposeMethod;
use crate::mixed_c2c::mixed_c2c_error;
use crate::mixed_c2c::mixed_c2c_in_place_error;
use crate::mixed_c2c::run_operation;
use crate::run::Launch;
use crate::run::OverlapLaunch;
use crate::run::execute;
use crate::run::execute_in_place;
use crate::run::execute_overlapped;
use crate::run::executed;
use crate::run::executed_in_place;
use crate::run::executed_overlapped;
use crate::scalar::Complex;
use crate::scalar::FftReal;
use crate::schedule::Mode;
use crate::stages::LocalError;
use crate::timing::TransformTiming;
use crate::transition::Passage;
use crate::transition::eager_exchanges;
use crate::words::Operation;
use crate::words::PlanFamily;

verus! {

impl<'a, R: FftReal, F: Fn(&[Complex<R>], usize) -> Result<Vec<Complex<R>>, LocalError>, X: Fn(usize, Passage, Load<Complex<R>, N, M>) -> (Load<Complex<R>, N, M>, Result<(), FftError>), const N: usize, const M: usize> MixedC2cCrew<'a, R, F, X, N, M> {
    /// Executes a mixed complex plan out of place; nothing is written unless all processes agree to
    /// start.
    pub fn execute<Q: Fn(u64, &Vec<u64>) -> Result<(), FftError>, A: Fn(bool) -> bool>(
        &self,
        same_plan: &Q,
        agree: &A,
        state: MixedC2cTask<R, N, M>,
    ) -> (result: (MixedC2cTask<R, N, M>, Result<(), MixedError>))
        requires
            Crew::<MixedC2cTask<R, N, M>, MixedError>::able(self),
            Crew::<MixedC2cTask<R, N, M>, MixedError>::fit(self, state),
            forall|operation: u64, given: &Vec<u64>| #[trigger]
                same_plan.requires((operation, given)),
            forall|valid: bool| #[trigger] agree.requires((valid,)),
        ensures
            exists|launch: Launch<MixedError>|
                launch.describes(
                    run_operation(PlanFamily::MixedC2c, self.direction, false, false),
                    self.direction,
                    mixed_c2c_error(*self.core, self.direction, *self.source, state.0, state.1),
                    self.core.itinerary().list(
                        self.direction,
                        Mode::OutOfPlace,
                        eager_exchanges(self.core.transitions@, self.direction),
                    ),
                ) && #[trigger] executed(
                    launch,
                    self.core.descriptor,
                    *same_plan,
                    *agree,
                    InTurn { crew: self },
                    state,
                    result.0,
                    result.1,
                ),
    {
        let launch: Launch<MixedError> = self.core.launch(self.direction, false, self.source, &state.0, &state.1);
        let ghost asked = launch;
        let ghost before = state;
        let result: (MixedC2cTask<R, N, M>, Result<(), MixedError>) = execute(
            launch,
            &self.core.descriptor,
            same_plan,
            agree,
            &InTurn { crew: self },
            state,
        );
        assert(executed(
            asked,
            self.core.descriptor,
            *same_plan,
            *agree,
            InTurn { crew: self },
            before,
            result.0,
            result.1,
        ));
        result
    }

    /// Executes a mixed complex plan out of place and measures each step; nothing is written unless
    /// all processes agree to start.
    pub fn execute_timed<Q: Fn(u64, &Vec<u64>) -> Result<(), FftError>, A: Fn(bool) -> bool, K: Fn() -> u64>(
        &self,
        now: &K,
        same_plan: &Q,
        agree: &A,
        state: MixedC2cTask<R, N, M>,
    ) -> (result: (MixedC2cTask<R, N, M>, Result<TransformTiming<N>, MixedError>))
        requires
            Crew::<MixedC2cTask<R, N, M>, MixedError>::able(self),
            Crew::<MixedC2cTask<R, N, M>, MixedError>::fit(self, state),
            forall|operation: u64, given: &Vec<u64>| #[trigger]
                same_plan.requires((operation, given)),
            forall|valid: bool| #[trigger] agree.requires((valid,)),
            now.requires(()),
        ensures
            exists|launch: Launch<MixedError>|
                launch.describes(
                    run_operation(PlanFamily::MixedC2c, self.direction, false, true),
                    self.direction,
                    mixed_c2c_error(*self.core, self.direction, *self.source, state.0, state.1),
                    self.core.itinerary().list(
                        self.direction,
                        Mode::OutOfPlace,
                        eager_exchanges(self.core.transitions@, self.direction),
                    ),
                ) && #[trigger] executed_timed(
                    launch,
                    self.core.descriptor,
                    *same_plan,
                    *agree,
                    *self,
                    *now,
                    state,
                    result.0,
                    result.1,
                ),
    {
        let launch: Launch<MixedError> = self.core.launch(self.direction, true, self.source, &state.0, &state.1);
        let ghost asked = launch;
        let ghost before = state;
        let result: (MixedC2cTask<R, N, M>, Result<TransformTiming<N>, MixedError>) = execute_timed(
            launch,
            &self.core.descriptor,
            same_plan,
            agree,
            self,
            now,
            state,
        );
        assert(executed_timed(
            asked,
            self.core.descriptor,
            *same_plan,
            *agree,
            *self,
            *now,
            before,
            result.0,
            result.1,
        ));
        result
    }
}

impl<'a, R: FftReal, F: Fn(&[Complex<R>], usize) -> Result<Vec<Complex<R>>, LocalError>, X: Fn(usize, Passage, Load<Complex<R>, N, M>) -> (Load<Complex<R>, N, M>, Result<(), FftError>), Y: Fn(usize, Direction, Option<bool>, Load<Complex<R>, N, M>) -> (Load<Complex<R>, N, M>, Result<(), OverlapError<MixedError>>), const N: usize, const M: usize> MixedC2cOverlapCrew<'a, R, F, X, Y, N, M> {
    /// Executes a mixed complex plan with kernels inside the receives; nothing is written unless all
    /// processes agree to start.
    pub fn execute<Q: Fn(u64, &Vec<u64>) -> Result<(), FftError>, A: Fn(bool) -> bool>(
        &self,
        same_plan: &Q,
        agree: &A,
        state: MixedC2cTask<R, N, M>,
    ) -> (result: (MixedC2cTask<R, N, M>, Result<(), FftOverlapError<MixedError>>))
        requires
            Crew::<MixedC2cTask<R, N, M>, MixedError>::able(self),
            Crew::<MixedC2cTask<R, N, M>, MixedError>::fit(self, state),
            forall|operation: u64, given: &Vec<u64>| #[trigger]
                same_plan.requires((operation, given)),
            forall|valid: bool| #[trigger] agree.requires((valid,)),
        ensures
            exists|launch: OverlapLaunch<MixedError>|
                launch.describes(
                    (Operation::Overlap { family: PlanFamily::MixedC2c, direction: self.crew.direction }),
                    self.crew.direction,
                    self.crew.core.layout.transpose_method == TransposeMethod::PointToPoint,
                    mixed_c2c_error(*self.crew.core, self.crew.direction, *self.crew.source, state.0, state.1),
                    self.crew.core.overlaps(self.crew.direction),
                    self.crew.core.itinerary().list(
                        self.crew.direction,
                        Mode::Overlap,
                        eager_exchanges(self.crew.core.transitions@, self.crew.direction),
                    ),
                ) && #[trigger] executed_overlapped(
                    launch,
                    self.crew.core.descriptor,
                    *same_plan,
                    *agree,
                    Overlapped { crew: self },
                    state,
                    result.0,
                    result.1,
                ),
    {
        let launch: OverlapLaunch<MixedError> = self.crew.core.launch_overlap(self.crew.direction, self.crew.source, &state.0, &state.1);
        let pieces: Overlapped<Self> = Overlapped { crew: self };
        let ghost asked = launch;
        let ghost before = state;
        let result: (MixedC2cTask<R, N, M>, Result<(), FftOverlapError<MixedError>>) = execute_overlapped(
            launch,
            &self.crew.core.descriptor,
            same_plan,
            agree,
            &pieces,
            state,
        );
        assert(executed_overlapped(
            asked,
            self.crew.core.descriptor,
            *same_plan,
            *agree,
            Overlapped { crew: self },
            before,
            result.0,
            result.1,
        ));
        result
    }
}

impl<'a, F, X, const N: usize, const M: usize> MixedC2cInPlaceCrew<'a, F, X, N, M> {
    /// Executes a mixed complex plan in place; from the start on the array counts as interrupted
    /// until all is done.
    pub fn execute<R: FftReal, Q: Fn(u64, &Vec<u64>) -> Result<(), FftError>, A: Fn(bool) -> bool>(
        &self,
        same_plan: &Q,
        agree: &A,
        state: MixedC2cInPlaceTask<R, N, M>,
    ) -> (result: (MixedC2cInPlaceTask<R, N, M>, Result<(), MixedError>)) where
            F: Fn(&[Complex<R>], usize) -> Result<Vec<Complex<R>>, LocalError>,
            X: Fn(usize, Passage, Load<Complex<R>, N, M>) -> (Load<Complex<R>, N, M>, Result<(), FftError>),

        requires
            Crew::<MixedC2cInPlaceTask<R, N, M>, MixedError>::able(self),
            Crew::<MixedC2cInPlaceTask<R, N, M>, MixedError>::fit(self, state),
            forall|operation: u64, given: &Vec<u64>| #[trigger]
                same_plan.requires((operation, given)),
            forall|valid: bool| #[trigger] agree.requires((valid,)),
        ensures
            exists|launch: Launch<MixedError>|
                launch.describes(
                    run_operation(PlanFamily::MixedC2c, self.direction, true, false),
                    self.direction,
                    mixed_c2c_in_place_error(*self.core, self.direction, state.0, state.1),
                    self.core.itinerary().list(
                        self.direction,
                        Mode::InPlace,
                        eager_exchanges(self.core.transitions@, self.direction),
                    ),
                ) && #[trigger] executed_in_place(
                    launch,
                    self.core.descriptor,
                    *same_plan,
                    *agree,
                    InTurn { crew: self },
                    state,
                    result.0,
                    result.1,
                ),
    {
        let launch: Launch<MixedError> = self.core.launch_in_place(self.direction, false, &state.0, &state.1);
        let ghost asked = launch;
        let ghost before = state;
        let result: (MixedC2cInPlaceTask<R, N, M>, Result<(), MixedError>) = execute_in_place(
            launch,
            &self.core.descriptor,
            same_plan,
            agree,
            &InTurn { crew: self },
            state,
        );
        assert(executed_in_place(
            asked,
            self.core.descriptor,
            *same_plan,
            *agree,
            InTurn { crew: self },
            before,
            result.0,
            result.1,
        ));
        result
    }

    /// Executes a mixed complex plan in place and measures each step; from the start on the array
    /// counts as interrupted until all is done.
    pub fn execute_timed<R: FftReal, Q: Fn(u64, &Vec<u64>) -> Result<(), FftError>, A: Fn(bool) -> bool, K: Fn() -> u64>(
        &self,
        now: &K,
        same_plan: &Q,
        agree: &A,
        state: MixedC2cInPlaceTask<R, N, M>,
    ) -> (result: (MixedC2cInPlaceTask<R, N, M>, Result<TransformTiming<N>, MixedError>)) where
            F: Fn(&[Complex<R>], usize) -> Result<Vec<Complex<R>>, LocalError>,
            X: Fn(usize, Passage, Load<Complex<R>, N, M>) -> (Load<Complex<R>, N, M>, Result<(), FftError>),

        requires
            Crew::<MixedC2cInPlaceTask<R, N, M>, MixedError>::able(self),
            Crew::<MixedC2cInPlaceTask<R, N, M>, MixedError>::fit(self, state),
            forall|operation: u64, given: &Vec<u64>| #[trigger]
                same_plan.requires((operation, given)),
            forall|valid: bool| #[trigger] agree.requires((valid,)),
            now.requires(()),
        ensures
            exists|launch: Launch<MixedError>|
                launch.describes(
                    run_operation(PlanFamily::MixedC2c, self.direction, true, true),
                    self.direction,
                    mixed_c2c_in_place_error(*self.core, self.direction, state.0, state.1),
                    self.core.itinerary().list(
                        self.direction,
                        Mode::InPlace,
                        eager_exchanges(self.core.transitions@, self.direction),
                    ),
                ) && #[trigger] executed_timed_in_place(
                    launch,
                    self.core.descriptor,
                    *same_plan,
                    *agree,
                    *self,
                    *now,
                    state,
                    result.0,
                    result.1,
                ),
    {
        let launch: Launch<MixedError> = self.core.launch_in_place(self.direction, true, &state.0, &state.1);
        let ghost asked = launch;
        let ghost before = state;
        let result: (MixedC2cInPlaceTask<R, N, M>, Result<TransformTiming<N>, MixedError>) = execute_timed_in_place(
            launch,
            &self.core.descriptor,
            same_plan,
            agree,
            self,
            now,
            state,
        );
        assert(executed_timed_in_place(
            asked,
            self.core.descriptor,
            *same_plan,
            *agree,
            *self,
            *now,
            before,
            result.0,
            result.1,
        ));
        result
    }
}

} // verus!
