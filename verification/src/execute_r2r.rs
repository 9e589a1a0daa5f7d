//! Executions of real-to-real and Hartley plans.

use vstd::prelude::*;

use crate::carrier::Load;
use crate::crew::Crew;
use crate::crew::InTurn;
use crate::crew_r2r::R2rCrew;
use crate::crew_r2r::R2rInPlaceCrew;
use crate::crew_r2r::R2rInPlaceTask;
use crate::crew_r2r::R2rTask;
use crate::error::FftError;
use crate::error::LocalR2rError;
use crate::error::R2rError;
use crate::r2r::r2r_in_place_error;
use crate::r2r::r2r_out_of_place_error;
use crate::run::Launch;
use crate::run::execute;
use crate::run::execute_in_place;
use crate::run::executed;
use crate::run::executed_in_place;
use crate::scalar::R2rScalar;
use crate::schedule::Mode;
use crate::transition::Passage;
use crate::transition::eager_exchanges;
use crate::words::Operation;
use crate::words::PlanFamily;

verus! {

impl<'a, T: R2rScalar, F: Fn(&[T], usize) -> Result<Vec<T>, LocalR2rError>, X: Fn(usize, Passage, Load<T, N, M>) -> (Load<T, N, M>, Result<(), FftError>), const N: usize, const M: usize> R2rCrew<'a, T, F, X, N, M> {
    /// Executes a real-to-real or Hartley plan out of place; nothing is written unless all processes
    /// agree to start.
    pub fn execute<Q: Fn(u64, &Vec<u64>) -> Result<(), FftError>, A: Fn(bool) -> bool>(
        &self,
        family: PlanFamily,
        same_plan: &Q,
        agree: &A,
        state: R2rTask<T, N, M>,
    ) -> (result: (R2rTask<T, N, M>, Result<(), R2rError>))
        requires
            Crew::<R2rTask<T, N, M>, R2rError>::able(self),
            Crew::<R2rTask<T, N, M>, R2rError>::fit(self, state),
            forall|operation: u64, given: &Vec<u64>| #[trigger]
                same_plan.requires((operation, given)),
            forall|valid: bool| #[trigger] agree.requires((valid,)),
        ensures
            exists|launch: Launch<R2rError>|
                launch.describes(
                    (Operation::Run { family, direction: self.direction, in_place: false }),
                    self.direction,
                    r2r_out_of_place_error(*self.core, self.direction, *self.source, state.0, state.1),
                    self.core.itinerary().list(
                        self.direction,
                        Mode::OutOfPlace,
                        eager_exchanges(self.core.transitions@, self.direction),
                    ),
                ) && #[trigger] executed(
                    launch,
                    self.core.descriptor,
                    *same_plan,
                    *agree,
                    InTurn { crew: self },
                    state,
                    result.0,
                    result.1,
                ),
    {
        let launch: Launch<R2rError> = self.core.launch(family, self.direction, self.source, &state.0, &state.1);
        let ghost asked = launch;
        let ghost before = state;
        let result: (R2rTask<T, N, M>, Result<(), R2rError>) = execute(
            launch,
            &self.core.descriptor,
            same_plan,
            agree,
            &InTurn { crew: self },
            state,
        );
        assert(executed(
            asked,
            self.core.descriptor,
            *same_plan,
            *agree,
            InTurn { crew: self },
            before,
            result.0,
            result.1,
        ));
        result
    }
}

impl<'a, F, X, const N: usize, const M: usize> R2rInPlaceCrew<'a, F, X, N, M> {
    /// Executes a real-to-real or Hartley plan in place; from the start on the array counts as
    /// interrupted until all is done.
    pub fn execute<T: R2rScalar, Q: Fn(u64, &Vec<u64>) -> Result<(), FftError>, A: Fn(bool) -> bool>(
        &self,
        family: PlanFamily,
        same_plan: &Q,
        agree: &A,
        state: R2rInPlaceTask<T, N, M>,
    ) -> (result: (R2rInPlaceTask<T, N, M>, Result<(), R2rError>)) where
            F: Fn(&[T], usize) -> Result<Vec<T>, LocalR2rError>,
            X: Fn(usize, Passage, Load<T, N, M>) -> (Load<T, N, M>, Result<(), FftError>),

        requires
            Crew::<R2rInPlaceTask<T, N, M>, R2rError>::able(self),
            Crew::<R2rInPlaceTask<T, N, M>, R2rError>::fit(self, state),
            forall|operation: u64, given: &Vec<u64>| #[trigger]
                same_plan.requires((operation, given)),
            forall|valid: bool| #[trigger] agree.requires((valid,)),
        ensures
            exists|launch: Launch<R2rError>|
                launch.describes(
                    (Operation::Run { family, direction: self.direction, in_place: true }),
                    self.direction,
                    r2r_in_place_error(*self.core, self.direction, state.0, state.1),
                    self.core.itinerary().list(
                        self.direction,
                        Mode::InPlace,
                        eager_exchanges(self.core.transitions@, self.direction),
                    ),
                ) && #[trigger] executed_in_place(
                    launch,
                    self.core.descriptor,
                    *same_plan,
                    *agree,
                    InTurn { crew: self },
                    state,
                    result.0,
                    result.1,
                ),
    {
        let launch: Launch<R2rError> = self.core.launch_in_place(family, self.direction, &state.0, &state.1);
        let ghost asked = launch;
        let ghost before = state;
        let result: (R2rInPlaceTask<T, N, M>, Result<(), R2rError>) = execute_in_place(
            launch,
            &self.core.descriptor,
            same_plan,
            agree,
            &InTurn { crew: self },
            state,
        );
        assert(executed_in_place(
            asked,
            self.core.descriptor,
            *same_plan,
            *agree,
            InTurn { crew: self },
            before,
            result.0,
            result.1,
        ));
        result
    }
}

} // verus!
