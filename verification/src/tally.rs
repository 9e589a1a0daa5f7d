//! A measured execution counts what it does.

use vstd::prelude::*;

use crate::chain::law_execution_does_every_step;
use crate::clock::blank;
use crate::clock::executed_timed;
use crate::clock::handed_out;
use crate::clock::measured;
use crate::clock::without_report;
use crate::clock::Clocked;
use crate::crew::Crew;
use crate::crew::InTurn;
use crate::error::Failure;
use crate::error::FftError;
use crate::measures::law_time_recorded;
use crate::run::executed;
use crate::run::Launch;
use crate::schedule::Step;
use crate::timing::StageTiming;
use crate::timing::TransformTiming;

verus! {

/// How many of the first `count` steps call the kernel of a stage whose timing they count toward.
pub open spec fn kernel_calls(steps: Seq<Step>, stage: int, count: int) -> int
    decreases count,
{
    if count <= 0 {
        0
    } else {
        kernel_calls(steps, stage, count - 1) + if steps[count - 1].timed matches Some(own) && own == stage
            && !(steps[count - 1].work is Exchange) {
            1int
        } else {
            0
        }
    }
}

proof fn lemma_tally<D, E: Failure, C: Crew<D, E>, K: Fn() -> u64, const N: usize>(
    clocked: Clocked<C, K>,
    steps: Seq<Step>,
    states: Seq<(D, TransformTiming<N>)>,
    stage: int,
    count: int,
)
    requires
        0 <= stage < N,
        0 <= count <= steps.len(),
        steps.len() < u64::MAX,
        states.len() == steps.len() + 1,
        forall|i: int|
            0 <= i < steps.len() ==> clocked.does(#[trigger] steps[i], states[i], states[i + 1], Ok(())),
        blank(states[0].1),
    ensures
        states[count].1.stages@[stage].fft_calls == kernel_calls(steps, stage, count),
        0 <= kernel_calls(steps, stage, count) <= count,
    decreases count,
{
    if count > 0 {
        lemma_tally::<D, E, C, K, N>(clocked, steps, states, stage, count - 1);
        let step = steps[count - 1];
        assert(clocked.does(step, states[count - 1], states[count], Ok(())));
        let before = states[count - 1].1;
        let after = states[count].1;
        let spent = choose|spent: u64| #[trigger]
            measured(*clocked.now, spent) && after.stages@ == before.recorded(step, spent);
        law_time_recorded(before, step, spent, stage);
    } else {
        assert(states[0].1.stages@[stage] == StageTiming::nothing());
    }
}

/// A measured execution does what the execution does that is not measured; and where it
/// succeeds, its report tells for each stage as many calls of kernels as there were.
pub proof fn law_timed_execution<D, E: Failure, Q: Fn(u64, &Vec<u64>) -> Result<(), FftError>, C: Crew<D, E>, A: Fn(bool) -> bool, K: Fn() -> u64, const N: usize>(
    launch: Launch<E>,
    words: Vec<u64>,
    same_plan: Q,
    agree: A,
    crew: C,
    now: K,
    before: D,
    after: D,
    outcome: Result<TransformTiming<N>, E>,
    stage: int,
)
    requires
        executed_timed(launch, words, same_plan, agree, crew, now, before, after, outcome),
        launch.steps@.len() < u64::MAX,
        0 <= stage < N,
    ensures
        executed(
            launch,
            words,
            same_plan,
            agree,
            InTurn { crew: &crew },
            before,
            after,
            match outcome {
                Ok(_) => Ok::<(), E>(()),
                Err(error) => Err(error),
            },
        ),
        outcome matches Ok(report) ==> {
            &&& report.stages@[stage].fft_calls == kernel_calls(
                launch.steps@,
                stage,
                launch.steps@.len() as int,
            )
            &&& measured(now, report.total)
        },
{
    if let Ok(report) = outcome {
        let (unmeasured, entered) = choose|unmeasured: TransformTiming<N>, entered: TransformTiming<N>|
            {
                &&& #[trigger] blank(unmeasured)
                &&& #[trigger] handed_out(now, entered, outcome)
                &&& executed(
                    launch,
                    words,
                    same_plan,
                    agree,
                    InTurn { crew: &Clocked { crew: &crew, now: &now } },
                    (before, unmeasured),
                    (after, entered),
                    without_report(outcome),
                )
            };
        let clocked = Clocked { crew: &crew, now: &now };
        let states = law_execution_does_every_step(
            launch,
            words,
            same_plan,
            agree,
            clocked,
            (before, unmeasured),
            (after, entered),
        );
        lemma_tally::<D, E, C, K, N>(clocked, launch.steps@, states, stage, launch.steps@.len() as int);
    }
}

} // verus!
