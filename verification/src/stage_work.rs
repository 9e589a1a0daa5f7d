//! The local steps of each kind of plan.

use vstd::prelude::*;

use crate::array::PencilArray;
use crate::error::FftError;
use crate::error::LocalC2cError;
use crate::error::LocalR2cError;
use crate::error::LocalR2rError;
use crate::error::MixedError;
use crate::error::R2cError;
use crate::error::R2rError;
use crate::handoff::HalfComplexStorage;
use crate::kernels::ComplexStation;
use crate::kernels::ForwardCrossing;
use crate::kernels::MixedComplexStation;
use crate::kernels::MixedForwardCrossing;
use crate::kernels::MixedRealStation;
use crate::kernels::MixedReverseCrossing;
use crate::kernels::R2rStation;
use crate::kernels::ReverseCrossing;
use crate::layout::Direction;
use crate::layout::Pencil;
use crate::lines::line_kernel;
use crate::local::MixedComplexLocal;
use crate::local::MixedR2cStageLocal;
use crate::local::MixedRealLocal;
use crate::mixed_c2c::MixedC2cCore;
use crate::mixed_c2c::MixedC2cInPlaceArray;
use crate::mixed_c2c::MixedC2cInPlaceWorkspace;
use crate::mixed_c2c::MixedC2cWorkspace;
use crate::mixed_r2c::MixedBuffers;
use crate::mixed_r2c::MixedR2cCore;
use crate::mixed_r2c::MixedR2cInPlaceArray;
use crate::mixed_r2c::MixedR2cWorkspace;
use crate::perform::apply_complex_side;
use crate::perform::apply_real_side;
use crate::perform::forward_done;
use crate::perform::perform_forward;
use crate::perform::perform_reverse;
use crate::perform::perform_step;
use crate::perform::reverse_done;
use crate::perform::step_done;
use crate::perform::HalfArrays;
use crate::perform::HalfEntries;
use crate::perform::HalfLens;
use crate::r2c::R2cInPlaceArray;
use crate::r2c::R2cWorkspace;
use crate::r2c::TransformPlanCore;
use crate::r2r::R2rCore;
use crate::r2r::R2rInPlaceArray;
use crate::r2r::R2rInPlaceWorkspace;
use crate::r2r::R2rWorkspace;
use crate::registry::Stage;
use crate::scalar::Complex;
use crate::scalar::FftReal;
use crate::scalar::R2rScalar;
use crate::schedule::Slot;
use crate::schedule::Step;
use crate::schedule::Work;
use crate::shared::same_frame;
use crate::shared::shared_wf;
use crate::stages::LocalError;
use crate::station::applied;
use crate::station::apply;
use crate::station::CopyStation;

verus! {

/// The exchange buffers are as before, and the line buffers as long as before.
pub open spec fn half_buffers_kept<R: FftReal, const N: usize, const M: usize>(
    before: R2cWorkspace<R, N, M>,
    after: R2cWorkspace<R, N, M>,
) -> bool {
    &&& after.core == before.core
    &&& after.transpose == before.transpose
    &&& after.real_transpose == before.real_transpose
    &&& after.fft_scratch == before.fft_scratch
    &&& after.complex_line == before.complex_line
    &&& after.real_line@.len() == before.real_line@.len()
    &&& after.complex_strided_line@.len() == before.complex_strided_line@.len()
    &&& match (before.real_source_line, after.real_source_line) {
        (Some(line), Some(same)) => same@.len() == line@.len(),
        (None, None) => true,
        _ => false,
    }
}

/// The exchange buffers are as before, and the line buffers as long as before.
pub open spec fn mixed_buffers_kept<R: FftReal>(
    before: MixedBuffers<R>,
    after: MixedBuffers<R>,
) -> bool {
    &&& after.transpose == before.transpose
    &&& after.real_transpose == before.real_transpose
    &&& after.embedding_line == before.embedding_line
    &&& after.fft_scratch == before.fft_scratch
    &&& after.real_line == before.real_line
    &&& after.complex_source_line@.len() == before.complex_source_line@.len()
    &&& after.complex_line == before.complex_line
    &&& after.real_source_line@.len() == before.real_source_line@.len()
    &&& after.real_strided_line@.len() == before.real_strided_line@.len()
    &&& after.complex_strided_line@.len() == before.complex_strided_line@.len()
}

impl<const N: usize, const M: usize> R2rCore<N, M> {
    /// The stage that a step applies. A step that copies applies none.
    pub open spec fn stage_of(&self, step: Step) -> int {
        match step.work {
            Work::Kernel(stage) => stage as int,
            _ => 0,
        }
    }

    /// The work of the stage that a step applies.
    pub open spec fn spec_station<'a, F>(&self, direction: Direction, step: Step, kernel: &'a F) -> R2rStation<'a, F, N, M> {
        let stage = self.stages@[self.stage_of(step)];
        R2rStation {
            kernel,
            local: self.locals@[self.stage_of(step)],
            pencil: if direction == Direction::Forward {
                stage.output
            } else {
                stage.input
            },
            axis: stage.axis,
        }
    }

    /// The layout in which values enter.
    pub open spec fn entry_pencil(&self, direction: Direction) -> Pencil<N, M> {
        if direction == Direction::Forward {
            self.stages@[0].output
        } else {
            self.stages@.last().output
        }
    }

    fn station<'a, F>(&self, direction: Direction, step: &Step, kernel: &'a F) -> (station: R2rStation<
        'a,
        F,
        N,
        M,
    >)
        requires
            self.wf(),
            self.stage_of(*step) < self.stages@.len(),
        ensures
            station == self.spec_station(direction, *step, kernel),
            station.pencil.wf(),
    {
        let index: usize = match step.work {
            Work::Kernel(stage) => stage,
            _ => 0,
        };
        let stage: Stage<N, M> = self.stages[index];
        proof {
            assert(self.stages@[index as int].wf());
        }
        R2rStation {
            kernel,
            local: self.locals[index],
            pencil: match direction {
                Direction::Forward => stage.output,
                _ => stage.input,
            },
            axis: stage.axis,
        }
    }

    /// Does a local step of an out-of-place execution, with the kernel of the step's stage.
    pub fn perform<T: R2rScalar, F: Fn(&[T], usize) -> Result<Vec<T>, LocalR2rError>>(
        &self,
        direction: Direction,
        step: &Step,
        kernel: &F,
        source: &PencilArray<T, N, M>,
        destination: &mut PencilArray<T, N, M>,
        workspace: &mut R2rWorkspace<T, N, M>,
    ) -> (outcome: Result<(), R2rError>)
        requires
            self.wf(),
            self.stage_of(*step) < self.stages@.len(),
            line_kernel::<T, T, LocalR2rError, F>(*kernel),
            old(workspace).intermediate.wf(),
        ensures
            final(workspace).intermediate.wf(),
            final(workspace).core == old(workspace).core,
            final(workspace).transpose == old(workspace).transpose,
            final(workspace).line_buffer@.len() == old(workspace).line_buffer@.len(),
            final(destination).pencil == old(destination).pencil,
            final(destination).extra_shape == old(destination).extra_shape,
            final(destination).data@.len() == old(destination).data@.len(),
            step_done::<T, R2rError, R2rStation<F, N, M>, N, M>(
                self.spec_station(direction, *step, kernel),
                *step,
                self.entry_pencil(direction),
                source.data@,
                (old(workspace).intermediate, final(workspace).intermediate),
                (old(destination).data@, final(destination).data@),
                old(workspace).line_buffer@.len() as usize,
                outcome,
            ),
    {
        let station = self.station(direction, step, kernel);
        let entry: Pencil<N, M> = match direction {
            Direction::Forward => self.stages[0].output,
            _ => self.stages[self.stages.len() - 1].output,
        };
        perform_step(
            &station,
            step,
            &entry,
            source.data.as_slice(),
            &mut workspace.intermediate,
            destination.data.as_mut_slice(),
            &mut workspace.line_buffer,
        )
    }

    /// Does a local step of an in-place execution, with the kernel of the step's stage.
    pub fn perform_in_place<T: R2rScalar, F: Fn(&[T], usize) -> Result<Vec<T>, LocalR2rError>>(
        &self,
        direction: Direction,
        step: &Step,
        kernel: &F,
        array: &mut R2rInPlaceArray<T, N, M>,
        workspace: &mut R2rInPlaceWorkspace<T, N, M>,
    ) -> (outcome: Result<(), R2rError>)
        requires
            self.wf(),
            self.stage_of(*step) < self.stages@.len(),
            line_kernel::<T, T, LocalR2rError, F>(*kernel),
            old(array).array.wf(),
        ensures
            final(array).array.wf(),
            final(array).core == old(array).core,
            final(array).state == old(array).state,
            final(workspace).core == old(workspace).core,
            final(workspace).transpose == old(workspace).transpose,
            final(workspace).line_buffer@.len() == old(workspace).line_buffer@.len(),
            applied::<T, R2rError, R2rStation<F, N, M>, N, M>(
                self.spec_station(direction, *step, kernel),
                old(array).array,
                final(array).array,
                old(workspace).line_buffer@.len() as usize,
                outcome,
            ),
    {
        let station = self.station(direction, step, kernel);
        apply(&station, &mut array.array, &mut workspace.line_buffer)
    }
}

impl<const N: usize, const M: usize> MixedC2cCore<N, M> {
    /// The stage that a step applies. A step that copies applies none.
    pub open spec fn stage_of(&self, step: Step) -> int {
        match step.work {
            Work::Kernel(stage) => stage as int,
            _ => 0,
        }
    }

    /// The work of the stage that a step applies.
    pub open spec fn spec_station<'a, F>(&self, direction: Direction, step: Step, kernel: &'a F) -> MixedComplexStation<'a, F, N, M> {
        let stage = self.stages@[self.stage_of(step)];
        MixedComplexStation {
            kernel,
            local: self.locals@[self.stage_of(step)],
            pencil: if direction == Direction::Forward {
                stage.output
            } else {
                stage.input
            },
            axis: stage.axis,
        }
    }

    /// The layout in which values enter.
    pub open spec fn entry_pencil(&self, direction: Direction) -> Pencil<N, M> {
        if direction == Direction::Forward {
            self.stages@[0].output
        } else {
            self.stages@.last().output
        }
    }

    fn station<'a, F>(&self, direction: Direction, step: &Step, kernel: &'a F) -> (station: MixedComplexStation<
        'a,
        F,
        N,
        M,
    >)
        requires
            self.wf(),
            self.stage_of(*step) < self.stages@.len(),
        ensures
            station == self.spec_station(direction, *step, kernel),
            station.pencil.wf(),
    {
        let index: usize = match step.work {
            Work::Kernel(stage) => stage,
            _ => 0,
        };
        let stage: Stage<N, M> = self.stages[index];
        proof {
            assert(self.stages@[index as int].wf());
        }
        MixedComplexStation {
            kernel,
            local: self.locals[index],
            pencil: match direction {
                Direction::Forward => stage.output,
                _ => stage.input,
            },
            axis: stage.axis,
        }
    }

    /// Does a local step of an out-of-place execution, with the kernel of the step's stage.
    pub fn perform<R: FftReal, F: Fn(&[Complex<R>], usize) -> Result<Vec<Complex<R>>, LocalError>>(
        &self,
        direction: Direction,
        step: &Step,
        kernel: &F,
        source: &PencilArray<Complex<R>, N, M>,
        destination: &mut PencilArray<Complex<R>, N, M>,
        workspace: &mut MixedC2cWorkspace<R, N, M>,
    ) -> (outcome: Result<(), MixedError>)
        requires
            self.wf(),
            self.stage_of(*step) < self.stages@.len(),
            line_kernel::<Complex<R>, Complex<R>, LocalError, F>(*kernel),
            old(workspace).intermediate.wf(),
        ensures
            final(workspace).intermediate.wf(),
            final(workspace).core == old(workspace).core,
            final(workspace).transpose == old(workspace).transpose,
            final(workspace).line_buffer@.len() == old(workspace).line_buffer@.len(),
            final(destination).pencil == old(destination).pencil,
            final(destination).extra_shape == old(destination).extra_shape,
            final(destination).data@.len() == old(destination).data@.len(),
            step_done::<Complex<R>, MixedError, MixedComplexStation<F, N, M>, N, M>(
                self.spec_station(direction, *step, kernel),
                *step,
                self.entry_pencil(direction),
                source.data@,
                (old(workspace).intermediate, final(workspace).intermediate),
                (old(destination).data@, final(destination).data@),
                old(workspace).line_buffer@.len() as usize,
                outcome,
            ),
    {
        let station = self.station(direction, step, kernel);
        let entry: Pencil<N, M> = match direction {
            Direction::Forward => self.stages[0].output,
            _ => self.stages[self.stages.len() - 1].output,
        };
        perform_step(
            &station,
            step,
            &entry,
            source.data.as_slice(),
            &mut workspace.intermediate,
            destination.data.as_mut_slice(),
            &mut workspace.line_buffer,
        )
    }

    /// Does a local step of an in-place execution, with the kernel of the step's stage.
    pub fn perform_in_place<R: FftReal, F: Fn(&[Complex<R>], usize) -> Result<Vec<Complex<R>>, LocalError>>(
        &self,
        direction: Direction,
        step: &Step,
        kernel: &F,
        array: &mut MixedC2cInPlaceArray<R, N, M>,
        workspace: &mut MixedC2cInPlaceWorkspace<R, N, M>,
    ) -> (outcome: Result<(), MixedError>)
        requires
            self.wf(),
            self.stage_of(*step) < self.stages@.len(),
            line_kernel::<Complex<R>, Complex<R>, LocalError, F>(*kernel),
            old(array).array.wf(),
        ensures
            final(array).array.wf(),
            final(array).core == old(array).core,
            final(array).state == old(array).state,
            final(workspace).core == old(workspace).core,
            final(workspace).transpose == old(workspace).transpose,
            final(workspace).line_buffer@.len() == old(workspace).line_buffer@.len(),
            applied::<Complex<R>, MixedError, MixedComplexStation<F, N, M>, N, M>(
                self.spec_station(direction, *step, kernel),
                old(array).array,
                final(array).array,
                old(workspace).line_buffer@.len() as usize,
                outcome,
            ),
    {
        let station = self.station(direction, step, kernel);
        apply(&station, &mut array.array, &mut workspace.line_buffer)
    }
}

impl<const N: usize, const M: usize> TransformPlanCore<N, M> {
    /// The stage that a step applies. A step that copies applies none.
    pub open spec fn stage_of(&self, step: Step) -> int {
        match step.work {
            Work::Kernel(stage) => stage as int,
            _ => 0,
        }
    }

    /// The layouts in which values enter.
    pub open spec fn entries(&self, direction: Direction) -> HalfEntries<N, M> {
        if direction == Direction::Forward {
            HalfEntries {
                source: self.stages@[0].output,
                crossing: self.stages@[self.boundary as int].output,
            }
        } else {
            HalfEntries {
                source: self.stages@.last().output,
                crossing: self.stages@[self.boundary as int].input,
            }
        }
    }

    fn find_entries(&self, direction: Direction) -> (entries: HalfEntries<N, M>)
        requires
            self.wf(),
        ensures
            entries == self.entries(direction),
    {
        match direction {
            Direction::Forward => HalfEntries {
                source: self.stages[0].output,
                crossing: self.stages[self.boundary].output,
            },
            _ => HalfEntries {
                source: self.stages[self.stages.len() - 1].output,
                crossing: self.stages[self.boundary].input,
            },
        }
    }

    /// The work of the complex stage that a step applies.
    pub open spec fn spec_tail_station<'a, F>(&self, direction: Direction, step: Step, kernel: &'a F) -> ComplexStation<'a, F, N, M> {
        let stage = self.stages@[self.stage_of(step)];
        ComplexStation {
            kernel,
            local: self.locals@[self.stage_of(step)],
            pencil: if direction == Direction::Forward {
                stage.output
            } else {
                stage.input
            },
            axis: stage.axis,
        }
    }

    fn tail_station<'a, F>(&self, direction: Direction, step: &Step, kernel: &'a F) -> (station:
        ComplexStation<'a, F, N, M>)
        requires
            self.wf(),
            self.stage_of(*step) < self.stages@.len(),
        ensures
            station == self.spec_tail_station(direction, *step, kernel),
            station.pencil.wf(),
    {
        let index: usize = match step.work {
            Work::Kernel(stage) => stage,
            _ => 0,
        };
        let stage: Stage<N, M> = self.stages[index];
        proof {
            assert(self.stages@[index as int].wf());
        }
        ComplexStation {
            kernel,
            local: self.locals[index],
            pencil: match direction {
                Direction::Forward => stage.output,
                _ => stage.input,
            },
            axis: stage.axis,
        }
    }

    /// The work of the boundary from real to half-complex lines.
    pub open spec fn spec_forward_crossing<'a, F>(&self, kernel: &'a F, result_line: usize) -> ForwardCrossing<'a, F, N, M> {
        let stage = self.stages@[self.boundary as int];
        ForwardCrossing {
            kernel,
            plan: self.plan(),
            result_line,
            pencil: stage.input,
            axis: stage.axis,
        }
    }

    /// The work of the boundary from half-complex to real lines.
    pub open spec fn spec_reverse_crossing<'a, F>(&self, kernel: &'a F, result_line: usize) -> ReverseCrossing<'a, F, N, M> {
        let stage = self.stages@[self.boundary as int];
        ReverseCrossing {
            kernel,
            plan: self.plan(),
            result_line,
            pencil: stage.output,
            axis: stage.axis,
        }
    }

    /// Does a local step of a forward execution, with the kernels of the step's stage.
    pub fn perform_forward<R: FftReal, FX: Fn(&[R], usize) -> Result<Vec<Complex<R>>, LocalR2cError>, FC: Fn(&[Complex<R>], usize) -> Result<Vec<Complex<R>>, LocalC2cError>>(
        &self,
        step: &Step,
        crossing: &FX,
        complex: &FC,
        source: &PencilArray<R, N, M>,
        destination: &mut PencilArray<Complex<R>, N, M>,
        workspace: &mut R2cWorkspace<R, N, M>,
    ) -> (outcome: Result<(), R2cError>)
        requires
            self.wf(),
            self.stage_of(*step) < self.stages@.len(),
            line_kernel::<R, Complex<R>, LocalR2cError, FX>(*crossing),
            line_kernel::<Complex<R>, Complex<R>, LocalC2cError, FC>(*complex),
            (HalfArrays {
                reals: old(workspace).real_intermediate,
                complexes: old(workspace).intermediate,
            }).wf(),
        ensures
            (HalfArrays {
                reals: final(workspace).real_intermediate,
                complexes: final(workspace).intermediate,
            }).wf(),
            half_buffers_kept(*old(workspace), *final(workspace)),
            final(destination).pencil == old(destination).pencil,
            final(destination).extra_shape == old(destination).extra_shape,
            final(destination).data@.len() == old(destination).data@.len(),
            forward_done::<R, R2cError, CopyStation, ForwardCrossing<FX, N, M>, ComplexStation<FC, N, M>, N, M>(
                (
                    CopyStation {  },
                    self.spec_forward_crossing(crossing, old(workspace).complex_line@.len() as usize),
                    self.spec_tail_station(Direction::Forward, *step, complex),
                ),
                *step,
                self.entries(Direction::Forward),
                source.data@,
                (HalfArrays {
                    reals: old(workspace).real_intermediate,
                    complexes: old(workspace).intermediate,
                }),
                (HalfArrays {
                    reals: final(workspace).real_intermediate,
                    complexes: final(workspace).intermediate,
                }),
                (old(destination).data@, final(destination).data@),
                (HalfLens {
                    crossing: match old(workspace).real_source_line {
                        Some(line) => line@.len() as usize,
                        None => 0,
                    },
                    reals: old(workspace).real_line@.len() as usize,
                    complexes: old(workspace).complex_strided_line@.len() as usize,
                }),
                outcome,
            ),
    {
        let stage: Stage<N, M> = self.stages[self.boundary];
        proof {
            assert(self.stages@[self.boundary as int].wf());
        }
        let stations = (
            CopyStation {  },
            ForwardCrossing {
                kernel: crossing,
                plan: self.boundary_plan(),
                result_line: workspace.complex_line.len(),
                pencil: stage.input,
                axis: stage.axis,
            },
            self.tail_station(Direction::Forward, step, complex),
        );
        let entries: HalfEntries<N, M> = self.find_entries(Direction::Forward);
        let mut none: Vec<R> = Vec::new();
        let source_line: &mut Vec<R> = match &mut workspace.real_source_line {
            Some(line) => line,
            None => &mut none,
        };
        perform_forward(
            &stations,
            step,
            &entries,
            source.data.as_slice(),
            &mut workspace.real_intermediate,
            &mut workspace.intermediate,
            destination.data.as_mut_slice(),
            source_line,
            &mut workspace.real_line,
            &mut workspace.complex_strided_line,
        )
    }

    /// Does a local step of a reverse execution, with the kernels of the step's stage.
    pub fn perform_reverse<R: FftReal, FX: Fn(&[Complex<R>], usize) -> Result<Vec<R>, LocalR2cError>, FC: Fn(&[Complex<R>], usize) -> Result<Vec<Complex<R>>, LocalC2cError>>(
        &self,
        step: &Step,
        crossing: &FX,
        complex: &FC,
        source: &PencilArray<Complex<R>, N, M>,
        destination: &mut PencilArray<R, N, M>,
        workspace: &mut R2cWorkspace<R, N, M>,
    ) -> (outcome: Result<(), R2cError>)
        requires
            self.wf(),
            self.stage_of(*step) < self.stages@.len(),
            line_kernel::<Complex<R>, R, LocalR2cError, FX>(*crossing),
            line_kernel::<Complex<R>, Complex<R>, LocalC2cError, FC>(*complex),
            (HalfArrays {
                reals: old(workspace).real_intermediate,
                complexes: old(workspace).intermediate,
            }).wf(),
        ensures
            (HalfArrays {
                reals: final(workspace).real_intermediate,
                complexes: final(workspace).intermediate,
            }).wf(),
            half_buffers_kept(*old(workspace), *final(workspace)),
            final(destination).pencil == old(destination).pencil,
            final(destination).extra_shape == old(destination).extra_shape,
            final(destination).data@.len() == old(destination).data@.len(),
            reverse_done::<R, R2cError, CopyStation, ReverseCrossing<FX, N, M>, ComplexStation<FC, N, M>, N, M>(
                (
                    CopyStation {  },
                    self.spec_reverse_crossing(crossing, old(workspace).real_line@.len() as usize),
                    self.spec_tail_station(Direction::Inverse, *step, complex),
                ),
                *step,
                self.entries(Direction::Inverse),
                source.data@,
                (HalfArrays {
                    reals: old(workspace).real_intermediate,
                    complexes: old(workspace).intermediate,
                }),
                (HalfArrays {
                    reals: final(workspace).real_intermediate,
                    complexes: final(workspace).intermediate,
                }),
                (old(destination).data@, final(destination).data@),
                (HalfLens {
                    crossing: old(workspace).complex_strided_line@.len() as usize,
                    reals: old(workspace).real_line@.len() as usize,
                    complexes: old(workspace).complex_strided_line@.len() as usize,
                }),
                outcome,
            ),
    {
        let stage: Stage<N, M> = self.stages[self.boundary];
        proof {
            assert(self.stages@[self.boundary as int].wf());
        }
        let stations = (
            CopyStation {  },
            ReverseCrossing {
                kernel: crossing,
                plan: self.boundary_plan(),
                result_line: workspace.real_line.len(),
                pencil: stage.output,
                axis: stage.axis,
            },
            self.tail_station(Direction::Inverse, step, complex),
        );
        let entries: HalfEntries<N, M> = self.find_entries(Direction::Inverse);
        let mut none: Vec<Complex<R>> = Vec::new();
        let crosses: bool = match (step.from, step.to) {
            (Slot::Complex, Slot::Real) | (Slot::Complex, Slot::Destination) => true,
            _ => false,
        };
        if crosses {
            perform_reverse(
                &stations,
                step,
                &entries,
                source.data.as_slice(),
                &mut workspace.real_intermediate,
                &mut workspace.intermediate,
                destination.data.as_mut_slice(),
                &mut workspace.complex_strided_line,
                &mut workspace.real_line,
                &mut none,
            )
        } else {
            perform_reverse(
                &stations,
                step,
                &entries,
                source.data.as_slice(),
                &mut workspace.real_intermediate,
                &mut workspace.intermediate,
                destination.data.as_mut_slice(),
                &mut none,
                &mut workspace.real_line,
                &mut workspace.complex_strided_line,
            )
        }
    }

    /// Does a step of an in-place execution behind the boundary, with the kernel of its stage.
    pub fn perform_complex_in_place<R: FftReal, FC: Fn(&[Complex<R>], usize) -> Result<Vec<Complex<R>>, LocalC2cError>>(
        &self,
        direction: Direction,
        step: &Step,
        complex: &FC,
        array: &mut R2cInPlaceArray<R, N, M>,
        line: &mut Vec<Complex<R>>,
    ) -> (outcome: Result<(), R2cError>)
        requires
            self.wf(),
            self.stage_of(*step) < self.stages@.len(),
            line_kernel::<Complex<R>, Complex<R>, LocalC2cError, FC>(*complex),
            shared_wf(old(array).shared),
        ensures
            shared_wf(final(array).shared),
            final(array).core == old(array).core,
            final(array).state == old(array).state,
            final(line)@.len() == old(line)@.len(),
            same_frame(old(array).shared, final(array).shared),
            match old(array).shared.storage {
                Some(HalfComplexStorage::Complex(before)) => final(array).shared.storage matches Some(
                    HalfComplexStorage::Complex(after),
                ) && applied::<Complex<R>, R2cError, ComplexStation<FC, N, M>, N, M>(
                    self.spec_tail_station(direction, *step, complex),
                    before,
                    after,
                    old(line)@.len() as usize,
                    outcome,
                ),
                _ => {
                    &&& outcome == Err::<(), R2cError>(R2cError::Fft(FftError::StorageLayoutMismatch))
                    &&& final(array).shared == old(array).shared
                },
            },
    {
        let station = self.tail_station(direction, step, complex);
        apply_complex_side(&station, &mut array.shared, line)
    }
}

impl<const N: usize, const M: usize> MixedR2cCore<N, M> {
    /// The stage that a step applies. A step that copies applies none.
    pub open spec fn stage_of(&self, step: Step) -> int {
        match step.work {
            Work::Kernel(stage) => stage as int,
            _ => 0,
        }
    }

    /// The layouts in which values enter.
    pub open spec fn entries(&self, direction: Direction) -> HalfEntries<N, M> {
        if direction == Direction::Forward {
            HalfEntries {
                source: self.stages@[0].output,
                crossing: self.stages@[self.boundary as int].output,
            }
        } else {
            HalfEntries {
                source: self.stages@.last().output,
                crossing: self.stages@[self.boundary as int].input,
            }
        }
    }

    fn find_entries(&self, direction: Direction) -> (entries: HalfEntries<N, M>)
        requires
            self.wf(),
        ensures
            entries == self.entries(direction),
    {
        match direction {
            Direction::Forward => HalfEntries {
                source: self.stages[0].output,
                crossing: self.stages[self.boundary].output,
            },
            _ => HalfEntries {
                source: self.stages[self.stages.len() - 1].output,
                crossing: self.stages[self.boundary].input,
            },
        }
    }

    /// The work of the complex stage that a step applies.
    pub open spec fn spec_tail_station<'a, F>(&self, direction: Direction, step: Step, kernel: &'a F) -> MixedComplexStation<'a, F, N, M> {
        let stage = self.stages@[self.stage_of(step)];
        MixedComplexStation {
            kernel,
            local: match self.locals@[self.stage_of(step)] {
                MixedR2cStageLocal::Complex(local) => local,
                MixedR2cStageLocal::Real(_) => MixedComplexLocal::Identity,
            },
            pencil: if direction == Direction::Forward {
                stage.output
            } else {
                stage.input
            },
            axis: stage.axis,
        }
    }

    fn tail_station<'a, F>(&self, direction: Direction, step: &Step, kernel: &'a F) -> (station:
        MixedComplexStation<'a, F, N, M>)
        requires
            self.wf(),
            self.stage_of(*step) < self.stages@.len(),
        ensures
            station == self.spec_tail_station(direction, *step, kernel),
            station.pencil.wf(),
    {
        let index: usize = match step.work {
            Work::Kernel(stage) => stage,
            _ => 0,
        };
        let stage: Stage<N, M> = self.stages[index];
        proof {
            assert(self.stages@[index as int].wf());
        }
        MixedComplexStation {
            kernel,
            local: match self.locals[index] {
                MixedR2cStageLocal::Complex(local) => local,
                MixedR2cStageLocal::Real(_) => MixedComplexLocal::Identity,
            },
            pencil: match direction {
                Direction::Forward => stage.output,
                _ => stage.input,
            },
            axis: stage.axis,
        }
    }

    /// The work of the boundary from real to half-complex lines.
    pub open spec fn spec_forward_crossing<'a, F>(&self, kernel: &'a F, result_line: usize) -> MixedForwardCrossing<'a, F, N, M> {
        let stage = self.stages@[self.boundary as int];
        MixedForwardCrossing {
            kernel,
            plan: self.plan(),
            result_line,
            pencil: stage.input,
            axis: stage.axis,
        }
    }

    /// The work of the boundary from half-complex to real lines.
    pub open spec fn spec_reverse_crossing<'a, F>(&self, kernel: &'a F, result_line: usize) -> MixedReverseCrossing<'a, F, N, M> {
        let stage = self.stages@[self.boundary as int];
        MixedReverseCrossing {
            kernel,
            plan: self.plan(),
            result_line,
            pencil: stage.output,
            axis: stage.axis,
        }
    }

    /// The work of the real stage that a step applies.
    pub open spec fn spec_prefix_station<'a, F>(&self, direction: Direction, step: Step, kernel: &'a F) -> MixedRealStation<'a, F, N, M> {
        let stage = self.stages@[self.stage_of(step)];
        MixedRealStation {
            kernel,
            local: match self.locals@[self.stage_of(step)] {
                MixedR2cStageLocal::Real(local) => local,
                MixedR2cStageLocal::Complex(_) => MixedRealLocal::Identity,
            },
            pencil: if direction == Direction::Forward {
                stage.output
            } else {
                stage.input
            },
            axis: stage.axis,
        }
    }

    fn prefix_station<'a, F>(&self, direction: Direction, step: &Step, kernel: &'a F) -> (station:
        MixedRealStation<'a, F, N, M>)
        requires
            self.wf(),
            self.stage_of(*step) < self.stages@.len(),
        ensures
            station == self.spec_prefix_station(direction, *step, kernel),
            station.pencil.wf(),
    {
        let index: usize = match step.work {
            Work::Kernel(stage) => stage,
            _ => 0,
        };
        let stage: Stage<N, M> = self.stages[index];
        proof {
            assert(self.stages@[index as int].wf());
        }
        MixedRealStation {
            kernel,
            local: match self.locals[index] {
                MixedR2cStageLocal::Real(local) => local,
                MixedR2cStageLocal::Complex(_) => MixedRealLocal::Identity,
            },
            pencil: match direction {
                Direction::Forward => stage.output,
                _ => stage.input,
            },
            axis: stage.axis,
        }
    }

    /// Does a local step of a forward execution, with the kernels of the step's stage.
    pub fn perform_forward<R: FftReal, FR: Fn(&[R], usize) -> Result<Vec<R>, LocalError>, FX: Fn(&[R], usize) -> Result<Vec<Complex<R>>, LocalError>, FC: Fn(&[Complex<R>], usize) -> Result<Vec<Complex<R>>, LocalError>>(
        &self,
        step: &Step,
        prefix: &FR,
        crossing: &FX,
        complex: &FC,
        source: &PencilArray<R, N, M>,
        destination: &mut PencilArray<Complex<R>, N, M>,
        workspace: &mut MixedR2cWorkspace<R, N, M>,
    ) -> (outcome: Result<(), MixedError>)
        requires
            self.wf(),
            self.stage_of(*step) < self.stages@.len(),
            line_kernel::<R, R, LocalError, FR>(*prefix),
            line_kernel::<R, Complex<R>, LocalError, FX>(*crossing),
            line_kernel::<Complex<R>, Complex<R>, LocalError, FC>(*complex),
            (HalfArrays {
                reals: old(workspace).real_intermediate,
                complexes: old(workspace).intermediate,
            }).wf(),
        ensures
            (HalfArrays {
                reals: final(workspace).real_intermediate,
                complexes: final(workspace).intermediate,
            }).wf(),
            final(workspace).core == old(workspace).core,
            mixed_buffers_kept(old(workspace).buffers, final(workspace).buffers),
            final(destination).pencil == old(destination).pencil,
            final(destination).extra_shape == old(destination).extra_shape,
            final(destination).data@.len() == old(destination).data@.len(),
            forward_done::<R, MixedError, MixedRealStation<FR, N, M>, MixedForwardCrossing<FX, N, M>, MixedComplexStation<FC, N, M>, N, M>(
                (
                    self.spec_prefix_station(Direction::Forward, *step, prefix),
                    self.spec_forward_crossing(crossing, old(workspace).buffers.complex_line@.len() as usize),
                    self.spec_tail_station(Direction::Forward, *step, complex),
                ),
                *step,
                self.entries(Direction::Forward),
                source.data@,
                (HalfArrays {
                    reals: old(workspace).real_intermediate,
                    complexes: old(workspace).intermediate,
                }),
                (HalfArrays {
                    reals: final(workspace).real_intermediate,
                    complexes: final(workspace).intermediate,
                }),
                (old(destination).data@, final(destination).data@),
                (HalfLens {
                    crossing: old(workspace).buffers.real_source_line@.len() as usize,
                    reals: old(workspace).buffers.real_strided_line@.len() as usize,
                    complexes: old(workspace).buffers.complex_strided_line@.len() as usize,
                }),
                outcome,
            ),
    {
        let stage: Stage<N, M> = self.stages[self.boundary];
        proof {
            assert(self.stages@[self.boundary as int].wf());
        }
        let stations = (
            self.prefix_station(Direction::Forward, step, prefix),
            MixedForwardCrossing {
                kernel: crossing,
                plan: self.boundary_plan(),
                result_line: workspace.buffers.complex_line.len(),
                pencil: stage.input,
                axis: stage.axis,
            },
            self.tail_station(Direction::Forward, step, complex),
        );
        let entries: HalfEntries<N, M> = self.find_entries(Direction::Forward);
        perform_forward(
            &stations,
            step,
            &entries,
            source.data.as_slice(),
            &mut workspace.real_intermediate,
            &mut workspace.intermediate,
            destination.data.as_mut_slice(),
            &mut workspace.buffers.real_source_line,
            &mut workspace.buffers.real_strided_line,
            &mut workspace.buffers.complex_strided_line,
        )
    }

    /// Does a local step of a reverse execution, with the kernels of the step's stage.
    pub fn perform_reverse<R: FftReal, FR: Fn(&[R], usize) -> Result<Vec<R>, LocalError>, FX: Fn(&[Complex<R>], usize) -> Result<Vec<R>, LocalError>, FC: Fn(&[Complex<R>], usize) -> Result<Vec<Complex<R>>, LocalError>>(
        &self,
        step: &Step,
        prefix: &FR,
        crossing: &FX,
        complex: &FC,
        source: &PencilArray<Complex<R>, N, M>,
        destination: &mut PencilArray<R, N, M>,
        workspace: &mut MixedR2cWorkspace<R, N, M>,
    ) -> (outcome: Result<(), MixedError>)
        requires
            self.wf(),
            self.stage_of(*step) < self.stages@.len(),
            line_kernel::<R, R, LocalError, FR>(*prefix),
            line_kernel::<Complex<R>, R, LocalError, FX>(*crossing),
            line_kernel::<Complex<R>, Complex<R>, LocalError, FC>(*complex),
            (HalfArrays {
                reals: old(workspace).real_intermediate,
                complexes: old(workspace).intermediate,
            }).wf(),
        ensures
            (HalfArrays {
                reals: final(workspace).real_intermediate,
                complexes: final(workspace).intermediate,
            }).wf(),
            final(workspace).core == old(workspace).core,
            mixed_buffers_kept(old(workspace).buffers, final(workspace).buffers),
            final(destination).pencil == old(destination).pencil,
            final(destination).extra_shape == old(destination).extra_shape,
            final(destination).data@.len() == old(destination).data@.len(),
            reverse_done::<R, MixedError, MixedRealStation<FR, N, M>, MixedReverseCrossing<FX, N, M>, MixedComplexStation<FC, N, M>, N, M>(
                (
                    self.spec_prefix_station(Direction::Inverse, *step, prefix),
                    self.spec_reverse_crossing(crossing, old(workspace).buffers.real_line@.len() as usize),
                    self.spec_tail_station(Direction::Inverse, *step, complex),
                ),
                *step,
                self.entries(Direction::Inverse),
                source.data@,
                (HalfArrays {
                    reals: old(workspace).real_intermediate,
                    complexes: old(workspace).intermediate,
                }),
                (HalfArrays {
                    reals: final(workspace).real_intermediate,
                    complexes: final(workspace).intermediate,
                }),
                (old(destination).data@, final(destination).data@),
                (HalfLens {
                    crossing: old(workspace).buffers.complex_source_line@.len() as usize,
                    reals: old(workspace).buffers.real_strided_line@.len() as usize,
                    complexes: old(workspace).buffers.complex_strided_line@.len() as usize,
                }),
                outcome,
            ),
    {
        let stage: Stage<N, M> = self.stages[self.boundary];
        proof {
            assert(self.stages@[self.boundary as int].wf());
        }
        let stations = (
            self.prefix_station(Direction::Inverse, step, prefix),
            MixedReverseCrossing {
                kernel: crossing,
                plan: self.boundary_plan(),
                result_line: workspace.buffers.real_line.len(),
                pencil: stage.output,
                axis: stage.axis,
            },
            self.tail_station(Direction::Inverse, step, complex),
        );
        let entries: HalfEntries<N, M> = self.find_entries(Direction::Inverse);
        perform_reverse(
            &stations,
            step,
            &entries,
            source.data.as_slice(),
            &mut workspace.real_intermediate,
            &mut workspace.intermediate,
            destination.data.as_mut_slice(),
            &mut workspace.buffers.complex_source_line,
            &mut workspace.buffers.real_strided_line,
            &mut workspace.buffers.complex_strided_line,
        )
    }

    /// Does a step of an in-place execution behind the boundary, with the kernel of its stage.
    pub fn perform_complex_in_place<R: FftReal, FC: Fn(&[Complex<R>], usize) -> Result<Vec<Complex<R>>, LocalError>>(
        &self,
        direction: Direction,
        step: &Step,
        complex: &FC,
        array: &mut MixedR2cInPlaceArray<R, N, M>,
        line: &mut Vec<Complex<R>>,
    ) -> (outcome: Result<(), MixedError>)
        requires
            self.wf(),
            self.stage_of(*step) < self.stages@.len(),
            line_kernel::<Complex<R>, Complex<R>, LocalError, FC>(*complex),
            shared_wf(old(array).shared),
        ensures
            shared_wf(final(array).shared),
            final(array).core == old(array).core,
            final(array).state == old(array).state,
            final(line)@.len() == old(line)@.len(),
            same_frame(old(array).shared, final(array).shared),
            match old(array).shared.storage {
                Some(HalfComplexStorage::Complex(before)) => final(array).shared.storage matches Some(
                    HalfComplexStorage::Complex(after),
                ) && applied::<Complex<R>, MixedError, MixedComplexStation<FC, N, M>, N, M>(
                    self.spec_tail_station(direction, *step, complex),
                    before,
                    after,
                    old(line)@.len() as usize,
                    outcome,
                ),
                _ => {
                    &&& outcome == Err::<(), MixedError>(MixedError::Fft(FftError::StorageLayoutMismatch))
                    &&& final(array).shared == old(array).shared
                },
            },
    {
        let station = self.tail_station(direction, step, complex);
        apply_complex_side(&station, &mut array.shared, line)
    }

    /// Does a step of an in-place execution before the boundary, with the kernel of its stage.
    pub fn perform_real_in_place<R: FftReal, FR: Fn(&[R], usize) -> Result<Vec<R>, LocalError>>(
        &self,
        direction: Direction,
        step: &Step,
        prefix: &FR,
        array: &mut MixedR2cInPlaceArray<R, N, M>,
        line: &mut Vec<R>,
    ) -> (outcome: Result<(), MixedError>)
        requires
            self.wf(),
            self.stage_of(*step) < self.stages@.len(),
            line_kernel::<R, R, LocalError, FR>(*prefix),
            shared_wf(old(array).shared),
        ensures
            shared_wf(final(array).shared),
            final(array).core == old(array).core,
            final(array).state == old(array).state,
            final(line)@.len() == old(line)@.len(),
            same_frame(old(array).shared, final(array).shared),
            match old(array).shared.storage {
                Some(HalfComplexStorage::Real(before)) => final(array).shared.storage matches Some(
                    HalfComplexStorage::Real(after),
                ) && applied::<R, MixedError, MixedRealStation<FR, N, M>, N, M>(
                    self.spec_prefix_station(direction, *step, prefix),
                    before,
                    after,
                    old(line)@.len() as usize,
                    outcome,
                ),
                _ => {
                    &&& outcome == Err::<(), MixedError>(
                        MixedError::Fft(FftError::StorageLayoutMismatch),
                    )
                    &&& final(array).shared == old(array).shared
                },
            },
    {
        let station = self.prefix_station(direction, step, prefix);
        apply_real_side(&station, &mut array.shared, line)
    }
}

} // verus!
