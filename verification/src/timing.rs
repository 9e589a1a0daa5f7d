//! Measurements of an execution.

use vstd::prelude::*;

use crate::schedule::Step;
use crate::schedule::Work;

verus! {

/// What was measured at one stage, in nanoseconds.
#[derive(Clone, Copy, Debug, PartialEq, Eq, Structural)]
pub struct StageTiming {
    /// Time in kernels.
    pub fft: u64,
    /// Calls of kernels.
    pub fft_calls: u64,
    /// Time in the exchange behind the stage.
    pub transpose: u64,
    /// Time in both.
    pub total: u64,
}

/// What was measured in an execution, in nanoseconds.
#[derive(Clone, Copy, Debug)]
pub struct TransformTiming<const N: usize> {
    /// The stages.
    pub stages: [StageTiming; N],
    /// The whole execution.
    pub total: u64,
}

/// A sum that does not go beyond the largest number.
pub open spec fn capped_sum(left: u64, right: u64) -> u64 {
    if left + right > u64::MAX {
        u64::MAX
    } else {
        (left + right) as u64
    }
}

impl StageTiming {
    /// Nothing was measured.
    pub open spec fn nothing() -> StageTiming {
        StageTiming { fft: 0, fft_calls: 0, transpose: 0, total: 0 }
    }

    /// The measurement with an exchange or a call of a kernel that took `spent`.
    pub open spec fn spec_with(self, exchange: bool, spent: u64) -> StageTiming {
        let fft = if exchange {
            self.fft
        } else {
            capped_sum(self.fft, spent)
        };
        let transpose = if exchange {
            capped_sum(self.transpose, spent)
        } else {
            self.transpose
        };
        StageTiming {
            fft,
            fft_calls: if exchange {
                self.fft_calls
            } else {
                capped_sum(self.fft_calls, 1)
            },
            transpose,
            total: capped_sum(fft, transpose),
        }
    }

    /// Adds an exchange or a call of a kernel that took `spent`.
    pub fn with(self, exchange: bool, spent: u64) -> (timing: StageTiming)
        ensures
            timing == self.spec_with(exchange, spent),
    {
        let fft: u64 = if exchange {
            self.fft
        } else {
            self.fft.saturating_add(spent)
        };
        let transpose: u64 = if exchange {
            self.transpose.saturating_add(spent)
        } else {
            self.transpose
        };
        StageTiming {
            fft,
            fft_calls: if exchange {
                self.fft_calls
            } else {
                self.fft_calls.saturating_add(1)
            },
            transpose,
            total: fft.saturating_add(transpose),
        }
    }
}

impl<const N: usize> TransformTiming<N> {
    /// Nothing was measured.
    pub fn unmeasured() -> (timing: TransformTiming<N>)
        ensures
            timing.total == 0,
            forall|i: int| 0 <= i < N ==> #[trigger] timing.stages@[i] == StageTiming::nothing(),
    {
        let nothing: StageTiming = StageTiming { fft: 0, fft_calls: 0, transpose: 0, total: 0 };
        TransformTiming { stages: [nothing; N], total: 0 }
    }

    /// What a report holds once a step that took `spent` was entered: it counts for the stage that
    /// the step is timed under, if there is one.
    pub open spec fn recorded(self, step: Step, spent: u64) -> Seq<StageTiming> {
        match step.timed {
            Some(stage) => if stage < N {
                self.stages@.update(
                    stage as int,
                    self.stages@[stage as int].spec_with(step.work is Exchange, spent),
                )
            } else {
                self.stages@
            },
            None => self.stages@,
        }
    }

    /// Enters a step that took `spent`.
    pub fn record(&mut self, step: &Step, spent: u64)
        ensures
            final(self).total == old(self).total,
            final(self).stages@ == old(self).recorded(*step, spent),
    {
        match step.timed {
            Some(stage) => {
                if stage < N {
                    let exchange: bool = match step.work {
                        Work::Exchange(_) => true,
                        _ => false,
                    };
                    self.stages[stage] = self.stages[stage].with(exchange, spent);
                }
            },
            None => {},
        }
        assert(self.stages@ =~= old(self).recorded(*step, spent));
    }
}

} // verus!
