//! What arguments, collections and requests are refused for.

use vstd::prelude::*;

use crate::accepted::alike;
use crate::accepted::holds_one;
use crate::accepted::left_in;
use crate::accepted::read_from;
use crate::array::PencilArray;
use crate::collections::begun;
use crate::collections::member_error;
use crate::collections::ManyCall;
use crate::collections::Peers;
use crate::error::ArrayError;
use crate::error::BackendInitError;
use crate::error::CollectionError;
use crate::error::Failure;
use crate::error::FftError;
use crate::error::FftOverlapError;
use crate::error::LocalC2cError;
use crate::error::LocalR2cError;
use crate::error::LocalR2rError;
use crate::error::MixedError;
use crate::error::R2cError;
use crate::error::R2rError;
use crate::handoff::HalfComplexStorage;
use crate::layout::C2cState;
use crate::layout::Direction;
use crate::layout::Pencil;
use crate::layout::R2cState;
use crate::layout::R2rState;
use crate::local::spec_mixed_c2c_local;
use crate::local::spec_mixed_r2c_local;
use crate::local::spec_mixed_r2r_local;
use crate::local::AxisR2rKind;
use crate::local::LocalC2cPlan;
use crate::local::LocalR2cPlan;
use crate::local::MixedR2rLocal;
use crate::mixed_c2c::mixed_c2c_error;
use crate::mixed_c2c::mixed_c2c_in_place_error;
use crate::mixed_c2c::MixedC2cCore;
use crate::mixed_c2c::MixedC2cInPlaceArray;
use crate::mixed_c2c::MixedC2cInPlaceWorkspace;
use crate::mixed_c2c::MixedC2cWorkspace;
use crate::mixed_r2c::mixed_r2c_error;
use crate::mixed_r2c::mixed_r2c_in_place_error;
use crate::mixed_r2c::MixedR2cCore;
use crate::mixed_r2c::MixedR2cInPlaceArray;
use crate::mixed_r2c::MixedR2cInPlaceWorkspace;
use crate::mixed_r2c::MixedR2cWorkspace;
use crate::r2c::inactive_registered;
use crate::r2c::r2c_in_place_error;
use crate::r2c::r2c_out_of_place_error;
use crate::r2c::R2cInPlaceArray;
use crate::r2c::R2cInPlaceWorkspace;
use crate::r2c::R2cWorkspace;
use crate::r2c::TransformPlanCore;
use crate::r2r::r2r_in_place_error;
use crate::r2r::r2r_out_of_place_error;
use crate::r2r::R2rCore;
use crate::r2r::R2rInPlaceArray;
use crate::r2r::R2rInPlaceWorkspace;
use crate::r2r::R2rWorkspace;
use crate::registry::has_layout;
use crate::registry::outputs_of;
use crate::registry::Stage;
use crate::scalar::Complex;
use crate::scalar::FftReal;
use crate::scalar::R2rScalar;
use crate::stages::as_c2c_sweep;
use crate::stages::as_mixed_sweep;
use crate::stages::as_r2c_sweep;
use crate::stages::as_r2r_sweep;
use crate::stages::LocalError;
use crate::sweep::SweepError;
use crate::words::header_words;
use crate::workspace::registered_error;
use crate::workspace::verdict_of;

verus! {

/// Some stage leaves a layout like this one.
pub open spec fn left_by_stage<const N: usize, const M: usize>(
    stages: Seq<Stage<N, M>>,
    first: int,
    pencil: Pencil<N, M>,
) -> bool {
    exists|i: int| first <= i < stages.len() && alike(#[trigger] stages[i].output, pencil)
}

proof fn lemma_left_by_stage<const N: usize, const M: usize>(
    stages: Seq<Stage<N, M>>,
    first: int,
    pencil: Pencil<N, M>,
)
    requires
        0 <= first <= stages.len(),
    ensures
        has_layout(outputs_of(stages.skip(first)), pencil) <==> left_by_stage(stages, first, pencil),
{
    let layouts = outputs_of(stages.skip(first));
    if has_layout(layouts, pencil) {
        let j = choose|j: int| 0 <= j < layouts.len() && (#[trigger] layouts[j]).spec_same_layout(&pencil);
        assert(alike(stages[first + j].output, pencil));
    }
    if left_by_stage(stages, first, pencil) {
        let i = choose|i: int| first <= i < stages.len() && alike(#[trigger] stages[i].output, pencil);
        assert(layouts[i - first].spec_same_layout(&pencil));
    }
}

/// What a real-to-real or Hartley plan finds wrong with arguments out of place, first things first.
pub proof fn law_r2r_refusal<T: R2rScalar, const N: usize, const M: usize>(
    core: R2rCore<N, M>,
    direction: Direction,
    source: PencilArray<T, N, M>,
    destination: PencilArray<T, N, M>,
    workspace: R2rWorkspace<T, N, M>,
)
    requires
        core.wf(),
    ensures
        ({
            let found = r2r_out_of_place_error(core, direction, source, destination, workspace);
            if workspace.core != core.id {
                found == Some(FftError::WorkspaceMismatch)
            } else if !alike(source.pencil, read_from(core.stages@, direction)) {
                found == Some(FftError::InputLayoutMismatch)
            } else if !alike(destination.pencil, left_in(core.stages@, direction)) {
                found == Some(FftError::OutputLayoutMismatch)
            } else if source.extra_shape.dimensions@ != core.extra_shape.dimensions@ || destination.extra_shape.dimensions@
                != core.extra_shape.dimensions@ {
                found == Some(FftError::ExtraShapeMismatch)
            } else if workspace.fft_scratch@.len() < core.lens.fft_scratch {
                found == Some(FftError::WorkspaceTooSmall { kind: "fft scratch", required: core.lens.fft_scratch, actual: workspace.fft_scratch.len() })
            } else if workspace.transpose.send@.len() < core.lens.send {
                found == Some(FftError::WorkspaceTooSmall { kind: "transpose send", required: core.lens.send, actual: workspace.transpose.send.len() })
            } else if workspace.transpose.receive@.len() < core.lens.receive {
                found == Some(FftError::WorkspaceTooSmall { kind: "transpose receive", required: core.lens.receive, actual: workspace.transpose.receive.len() })
            } else if workspace.embedding_line@.len() < core.embedding_len {
                found == Some(FftError::WorkspaceTooSmall { kind: "complex embedding", required: core.embedding_len, actual: workspace.embedding_line.len() })
            } else if workspace.intermediate.extra_shape.dimensions@ != core.extra_shape.dimensions@ {
                found == Some(FftError::WorkspaceMismatch)
            } else if workspace.intermediate.active is None {
                found == Some(FftError::Array(ArrayError::Poisoned))
            } else if workspace.intermediate.active->0 >= workspace.intermediate.pencils@.len() {
                found == Some(FftError::Array(ArrayError::IncompatiblePencils))
            } else if !left_by_stage(
                core.stages@,
                0,
                workspace.intermediate.pencils@[workspace.intermediate.active->0 as int],
            ) {
                found == Some(FftError::WorkspaceMismatch)
            } else if workspace.line_buffer@.len() < core.strided_line_len {
                found == Some(FftError::WorkspaceTooSmall { kind: "real line", required: core.strided_line_len, actual: workspace.line_buffer.len() })
            } else {
                found is None
            }
        }),
{
    assert(workspace.fft_scratch.len() == workspace.fft_scratch@.len());
    assert(workspace.transpose.send.len() == workspace.transpose.send@.len());
    assert(workspace.transpose.receive.len() == workspace.transpose.receive@.len());
    assert(workspace.embedding_line.len() == workspace.embedding_line@.len());
    assert(workspace.line_buffer.len() == workspace.line_buffer@.len());
    assert(core.stages@.skip(0) =~= core.stages@);
    lemma_left_by_stage(
        core.stages@,
        0,
        workspace.intermediate.pencils@[workspace.intermediate.active->0 as int],
    );
}

/// What a real-to-real or Hartley plan finds wrong with an array and a workspace in place,
/// first things first.
pub proof fn law_r2r_refusal_in_place<T: R2rScalar, const N: usize, const M: usize>(
    core: R2rCore<N, M>,
    direction: Direction,
    array: R2rInPlaceArray<T, N, M>,
    workspace: R2rInPlaceWorkspace<T, N, M>,
)
    requires
        core.wf(),
    ensures
        ({
            let found = r2r_in_place_error(core, direction, array, workspace);
            if array.core != core.id {
                found == Some(FftError::Array(ArrayError::IncompatiblePencils))
            } else if workspace.core != core.id {
                found == Some(FftError::WorkspaceMismatch)
            } else if array.state == R2rState::Poisoned {
                found == Some(FftError::Array(ArrayError::Poisoned))
            } else if direction == Direction::Forward && array.state == R2rState::Output || direction != Direction::Forward
                && array.state == R2rState::Input {
                found == Some(FftError::InputLayoutMismatch)
            } else if array.array.extra_shape.dimensions@ != core.extra_shape.dimensions@ {
                found == Some(FftError::ExtraShapeMismatch)
            } else if array.array.active is None {
                found == Some(FftError::Array(ArrayError::Poisoned))
            } else if array.array.active->0 >= array.array.pencils@.len() {
                found == Some(FftError::Array(ArrayError::IncompatiblePencils))
            } else if !alike(
                array.array.pencils@[array.array.active->0 as int],
                read_from(core.stages@, direction),
            ) {
                found == Some(FftError::InputLayoutMismatch)
            } else if workspace.fft_scratch@.len() < core.lens.fft_scratch {
                found == Some(FftError::WorkspaceTooSmall { kind: "fft scratch", required: core.lens.fft_scratch, actual: workspace.fft_scratch.len() })
            } else if workspace.transpose.send@.len() < core.lens.send {
                found == Some(FftError::WorkspaceTooSmall { kind: "transpose send", required: core.lens.send, actual: workspace.transpose.send.len() })
            } else if workspace.transpose.receive@.len() < core.lens.receive {
                found == Some(FftError::WorkspaceTooSmall { kind: "transpose receive", required: core.lens.receive, actual: workspace.transpose.receive.len() })
            } else if workspace.embedding_line@.len() < core.embedding_len {
                found == Some(FftError::WorkspaceTooSmall { kind: "complex embedding", required: core.embedding_len, actual: workspace.embedding_line.len() })
            } else if workspace.line_buffer@.len() < core.strided_line_len {
                found == Some(FftError::WorkspaceTooSmall { kind: "real line", required: core.strided_line_len, actual: workspace.line_buffer.len() })
            } else {
                found is None
            }
        }),
{
    assert(workspace.fft_scratch.len() == workspace.fft_scratch@.len());
    assert(workspace.transpose.send.len() == workspace.transpose.send@.len());
    assert(workspace.transpose.receive.len() == workspace.transpose.receive@.len());
    assert(workspace.embedding_line.len() == workspace.embedding_line@.len());
    assert(workspace.line_buffer.len() == workspace.line_buffer@.len());
}

/// What a mixed complex plan finds wrong with arguments out of place, first things first.
pub proof fn law_mixed_c2c_refusal<R: FftReal, const N: usize, const M: usize>(
    core: MixedC2cCore<N, M>,
    direction: Direction,
    source: PencilArray<Complex<R>, N, M>,
    destination: PencilArray<Complex<R>, N, M>,
    workspace: MixedC2cWorkspace<R, N, M>,
)
    requires
        core.wf(),
    ensures
        ({
            let found = mixed_c2c_error(core, direction, source, destination, workspace);
            if workspace.core != core.id {
                found == Some(FftError::WorkspaceMismatch)
            } else if !alike(source.pencil, read_from(core.stages@, direction)) || (core.strict_array_identity && source.pencil.id != read_from(core.stages@, direction).id) {
                found == Some(FftError::InputLayoutMismatch)
            } else if !alike(destination.pencil, left_in(core.stages@, direction)) || (core.strict_array_identity && destination.pencil.id != left_in(core.stages@, direction).id) {
                found == Some(FftError::OutputLayoutMismatch)
            } else if source.extra_shape.dimensions@ != core.extra_shape.dimensions@ || destination.extra_shape.dimensions@
                != core.extra_shape.dimensions@ {
                found == Some(FftError::ExtraShapeMismatch)
            } else if workspace.intermediate.extra_shape.dimensions@ != core.extra_shape.dimensions@ {
                found == Some(FftError::WorkspaceMismatch)
            } else if workspace.intermediate.active is None {
                found == Some(FftError::Array(ArrayError::Poisoned))
            } else if workspace.intermediate.active->0 >= workspace.intermediate.pencils@.len() {
                found == Some(FftError::Array(ArrayError::IncompatiblePencils))
            } else if workspace.intermediate.pencils@.len() != core.registered_pencils@.len() {
                found == Some(FftError::WorkspaceMismatch)
            } else {
                registered_error(workspace.intermediate, core.registered_pencils@) is None ==> {
                    &&& workspace.fft_scratch@.len() < core.lens.fft_scratch ==> found == Some(
                        FftError::WorkspaceTooSmall {
                            kind: "fft scratch",
                            required: core.lens.fft_scratch,
                            actual: workspace.fft_scratch.len(),
                        },
                    )
                    &&& found is None <==> workspace.fft_scratch@.len() >= core.lens.fft_scratch
                        && workspace.transpose.send@.len() >= core.lens.send
                        && workspace.transpose.receive@.len() >= core.lens.receive
                        && workspace.embedding_line@.len() >= core.embedding_len
                        && workspace.line_buffer@.len() >= core.strided_line_len
                }
            }
        }),
{
    assert(workspace.fft_scratch.len() == workspace.fft_scratch@.len());
    assert(workspace.transpose.send.len() == workspace.transpose.send@.len());
    assert(workspace.transpose.receive.len() == workspace.transpose.receive@.len());
    assert(workspace.embedding_line.len() == workspace.embedding_line@.len());
    assert(workspace.line_buffer.len() == workspace.line_buffer@.len());
}

/// What a mixed complex plan finds wrong with an array and a workspace in place, first things
/// first.
pub proof fn law_mixed_c2c_refusal_in_place<R: FftReal, const N: usize, const M: usize>(
    core: MixedC2cCore<N, M>,
    direction: Direction,
    array: MixedC2cInPlaceArray<R, N, M>,
    workspace: MixedC2cInPlaceWorkspace<R, N, M>,
)
    requires
        core.wf(),
    ensures
        ({
            let found = mixed_c2c_in_place_error(core, direction, array, workspace);
            if array.core != core.id {
                found == Some(FftError::Array(ArrayError::IncompatiblePencils))
            } else if workspace.core != core.id {
                found == Some(FftError::WorkspaceMismatch)
            } else if array.state == C2cState::Poisoned {
                found == Some(FftError::Array(ArrayError::Poisoned))
            } else if direction == Direction::Forward && array.state == C2cState::Output || direction != Direction::Forward
                && array.state == C2cState::Input {
                found == Some(FftError::InputLayoutMismatch)
            } else if array.array.extra_shape.dimensions@ != core.extra_shape.dimensions@ {
                found == Some(FftError::ExtraShapeMismatch)
            } else if array.array.active is None {
                found == Some(FftError::Array(ArrayError::Poisoned))
            } else if array.array.active->0 >= array.array.pencils@.len() {
                found == Some(FftError::Array(ArrayError::IncompatiblePencils))
            } else if array.array.pencils@.len() != core.registered_pencils@.len() {
                found == Some(FftError::WorkspaceMismatch)
            } else {
                registered_error(array.array, core.registered_pencils@) is None ==> {
                    &&& !alike(
                        array.array.pencils@[array.array.active->0 as int],
                        read_from(core.stages@, direction),
                    ) ==> found == Some(FftError::InputLayoutMismatch)
                    &&& found is None ==> workspace.fft_scratch@.len() >= core.lens.fft_scratch
                        && workspace.transpose.send@.len() >= core.lens.send
                        && workspace.transpose.receive@.len() >= core.lens.receive
                        && workspace.embedding_line@.len() >= core.embedding_len
                        && workspace.line_buffer@.len() >= core.strided_line_len
                }
            }
        }),
{
    assert(workspace.fft_scratch.len() == workspace.fft_scratch@.len());
    assert(workspace.transpose.send.len() == workspace.transpose.send@.len());
    assert(workspace.transpose.receive.len() == workspace.transpose.receive@.len());
    assert(workspace.embedding_line.len() == workspace.embedding_line@.len());
    assert(workspace.line_buffer.len() == workspace.line_buffer@.len());
}

/// What a real-to-complex plan finds wrong with arguments out of place, first things first.
pub proof fn law_r2c_refusal<R: FftReal, S, U, const N: usize, const M: usize>(
    core: TransformPlanCore<N, M>,
    direction: Direction,
    source: PencilArray<S, N, M>,
    destination: PencilArray<U, N, M>,
    workspace: R2cWorkspace<R, N, M>,
)
    requires
        core.wf(),
    ensures
        ({
            let found = r2c_out_of_place_error(core, direction, source, destination, workspace);
            if workspace.core != core.id {
                found == Some(FftError::WorkspaceMismatch)
            } else if !alike(source.pencil, read_from(core.stages@, direction)) {
                found == Some(FftError::InputLayoutMismatch)
            } else if !alike(destination.pencil, left_in(core.stages@, direction)) {
                found == Some(FftError::OutputLayoutMismatch)
            } else if source.extra_shape.dimensions@ != core.extra_shape.dimensions@ || destination.extra_shape.dimensions@
                != core.extra_shape.dimensions@ {
                found == Some(FftError::ExtraShapeMismatch)
            } else if workspace.fft_scratch@.len() < core.lens.fft_scratch {
                found == Some(FftError::WorkspaceTooSmall { kind: "fft scratch", required: core.lens.fft_scratch, actual: workspace.fft_scratch.len() })
            } else if workspace.transpose.send@.len() < core.lens.send {
                found == Some(FftError::WorkspaceTooSmall { kind: "transpose send", required: core.lens.send, actual: workspace.transpose.send.len() })
            } else if workspace.transpose.receive@.len() < core.lens.receive {
                found == Some(FftError::WorkspaceTooSmall { kind: "transpose receive", required: core.lens.receive, actual: workspace.transpose.receive.len() })
            } else if workspace.intermediate.extra_shape.dimensions@ != core.extra_shape.dimensions@ {
                found == Some(FftError::WorkspaceMismatch)
            } else if workspace.intermediate.active is None {
                found == Some(FftError::Array(ArrayError::Poisoned))
            } else if workspace.intermediate.active->0 >= workspace.intermediate.pencils@.len() {
                found == Some(FftError::Array(ArrayError::IncompatiblePencils))
            } else if !left_by_stage(
                core.stages@,
                core.boundary as int,
                workspace.intermediate.pencils@[workspace.intermediate.active->0 as int],
            ) {
                found == Some(FftError::WorkspaceMismatch)
            } else if core.boundary > 0 && (workspace.real_intermediate is None
                || workspace.real_intermediate->0.extra_shape.dimensions@ != core.extra_shape.dimensions@
                || !holds_one(
                workspace.real_intermediate->0.pencils@,
                core.stages@[core.boundary as int].input,
            ) || workspace.real_transpose is None) {
                found == Some(FftError::WorkspaceMismatch)
            } else {
                core.boundary == 0 && core.boundary_stride() is Some ==> {
                    &&& core.boundary_stride()->0 > 1 && workspace.real_source_line is None && core.plan().real_len > 0
                        ==> found == Some(
                        FftError::WorkspaceTooSmall {
                            kind: "real source line",
                            required: core.plan().real_len,
                            actual: 0,
                        },
                    )
                    &&& core.boundary_stride()->0 <= 1 && workspace.real_line@.len() < core.plan().real_len
                        ==> found == Some(
                        FftError::WorkspaceTooSmall {
                            kind: "real line",
                            required: core.plan().real_len,
                            actual: workspace.real_line.len(),
                        },
                    )
                }
            }
        }),
{
    assert(workspace.fft_scratch.len() == workspace.fft_scratch@.len());
    assert(workspace.transpose.send.len() == workspace.transpose.send@.len());
    assert(workspace.transpose.receive.len() == workspace.transpose.receive@.len());
    assert(workspace.real_line.len() == workspace.real_line@.len());
    lemma_left_by_stage(
        core.stages@,
        core.boundary as int,
        workspace.intermediate.pencils@[workspace.intermediate.active->0 as int],
    );
    if core.boundary > 0 && workspace.real_intermediate is Some {
        let held = workspace.real_intermediate->0.pencils@;
        let wanted = core.stages@[core.boundary as int].input;
        if has_layout(held, wanted) {
            let j = choose|j: int| 0 <= j < held.len() && (#[trigger] held[j]).spec_same_layout(&wanted);
            assert(alike(held[j], wanted));
        }
        if holds_one(held, wanted) {
            let j = choose|j: int| 0 <= j < held.len() && alike(#[trigger] held[j], wanted);
            assert(held[j].spec_same_layout(&wanted));
        }
    }
}

/// What a real-to-complex plan finds wrong with an array and a workspace in place, first things
/// first.
pub proof fn law_r2c_refusal_in_place<R: FftReal, const N: usize, const M: usize>(
    core: TransformPlanCore<N, M>,
    direction: Direction,
    array: R2cInPlaceArray<R, N, M>,
    workspace: R2cInPlaceWorkspace<R, N, M>,
    capacity: usize,
)
    requires
        core.wf(),
    ensures
        ({
            let found = r2c_in_place_error(core, direction, array, workspace, capacity);
            if array.core != core.id {
                found == Some(FftError::Array(ArrayError::IncompatiblePencils))
            } else if workspace.core != core.id {
                found == Some(FftError::WorkspaceMismatch)
            } else if array.state == R2cState::Poisoned {
                found == Some(FftError::Array(ArrayError::Poisoned))
            } else if direction == Direction::Forward && array.state == R2cState::ComplexOutput || direction != Direction::Forward
                && array.state == R2cState::RealInput {
                found == Some(FftError::InputLayoutMismatch)
            } else if array.shared.storage is None {
                found == Some(FftError::StorageLayoutMismatch)
            } else if direction == Direction::Forward && array.shared.complex_pencils is None || direction != Direction::Forward
                && array.shared.real_pencils is None {
                found == Some(FftError::WorkspaceMismatch)
            } else {
                inactive_registered(core, direction, array.shared) ==> (direction == Direction::Forward && !(array.shared.storage->0 is Real) || direction
                    != Direction::Forward && !(array.shared.storage->0 is Complex) ==> found == Some(
                    FftError::StorageLayoutMismatch,
                ))
            }
        }),
{
}

/// What a mixed real-to-complex plan finds wrong with arguments out of place, first things first.
pub proof fn law_mixed_r2c_refusal<R: FftReal, S, U, const N: usize, const M: usize>(
    core: MixedR2cCore<N, M>,
    direction: Direction,
    source: PencilArray<S, N, M>,
    destination: PencilArray<U, N, M>,
    workspace: MixedR2cWorkspace<R, N, M>,
)
    requires
        core.wf(),
    ensures
        ({
            let found = mixed_r2c_error(core, direction, source, destination, workspace);
            if !alike(source.pencil, read_from(core.stages@, direction)) || (core.strict_array_identity && source.pencil.id != read_from(core.stages@, direction).id) {
                found == Some(FftError::InputLayoutMismatch)
            } else if !alike(destination.pencil, left_in(core.stages@, direction)) || (core.strict_array_identity && destination.pencil.id != left_in(core.stages@, direction).id) {
                found == Some(FftError::OutputLayoutMismatch)
            } else if source.extra_shape.dimensions@ != core.extra_shape.dimensions@ || destination.extra_shape.dimensions@
                != core.extra_shape.dimensions@ {
                found == Some(FftError::ExtraShapeMismatch)
            } else if workspace.core != core.id {
                found == Some(FftError::WorkspaceMismatch)
            } else if workspace.buffers.fft_scratch@.len() < core.lens.fft_scratch {
                found == Some(FftError::WorkspaceTooSmall { kind: "fft scratch", required: core.lens.fft_scratch, actual: workspace.buffers.fft_scratch.len() })
            } else if workspace.buffers.transpose.send@.len() < core.lens.send {
                found == Some(FftError::WorkspaceTooSmall { kind: "transpose send", required: core.lens.send, actual: workspace.buffers.transpose.send.len() })
            } else if workspace.buffers.transpose.receive@.len() < core.lens.receive {
                found == Some(FftError::WorkspaceTooSmall { kind: "transpose receive", required: core.lens.receive, actual: workspace.buffers.transpose.receive.len() })
            } else if workspace.intermediate.extra_shape.dimensions@ != core.extra_shape.dimensions@ {
                found == Some(FftError::WorkspaceMismatch)
            } else if workspace.intermediate.active is None {
                found == Some(FftError::Array(ArrayError::Poisoned))
            } else if workspace.intermediate.active->0 >= workspace.intermediate.pencils@.len() {
                found == Some(FftError::Array(ArrayError::IncompatiblePencils))
            } else if workspace.intermediate.pencils@.len() != core.complex_pencils@.len() {
                found == Some(FftError::WorkspaceMismatch)
            } else {
                registered_error(workspace.intermediate, core.complex_pencils@) is None && (workspace.real_intermediate is Some
                    && core.boundary == 0 || workspace.real_intermediate is None && core.boundary > 0) ==> found == Some(FftError::WorkspaceMismatch)
            }
        }),
{
    assert(workspace.buffers.fft_scratch.len() == workspace.buffers.fft_scratch@.len());
    assert(workspace.buffers.transpose.send.len() == workspace.buffers.transpose.send@.len());
    assert(workspace.buffers.transpose.receive.len() == workspace.buffers.transpose.receive@.len());
}

/// What a mixed real-to-complex plan finds wrong with an array and a workspace in place, first
/// things first.
pub proof fn law_mixed_r2c_refusal_in_place<R: FftReal, const N: usize, const M: usize>(
    core: MixedR2cCore<N, M>,
    direction: Direction,
    array: MixedR2cInPlaceArray<R, N, M>,
    workspace: MixedR2cInPlaceWorkspace<R, N, M>,
    capacity: usize,
)
    requires
        core.wf(),
    ensures
        ({
            let found = mixed_r2c_in_place_error(core, direction, array, workspace, capacity);
            if array.core != core.id {
                found == Some(FftError::Array(ArrayError::IncompatiblePencils))
            } else if workspace.core != core.id {
                found == Some(FftError::WorkspaceMismatch)
            } else if array.state == R2cState::Poisoned {
                found == Some(FftError::Array(ArrayError::Poisoned))
            } else if direction == Direction::Forward && array.state == R2cState::ComplexOutput || direction != Direction::Forward
                && array.state == R2cState::RealInput {
                found == Some(FftError::InputLayoutMismatch)
            } else if direction == Direction::Forward && !(array.shared.storage matches Some(HalfComplexStorage::Real(_)))
                || direction != Direction::Forward && !(array.shared.storage matches Some(HalfComplexStorage::Complex(_))) {
                found == Some(FftError::StorageLayoutMismatch)
            } else {
                true
            }
        }),
{
}

/// A member of a collection that not all processes could go on with is told by its place: with
/// the own error where there is one, else as the failure of another process, before or during
/// the execution.
pub proof fn law_member_errors<E>(index: usize, local: Result<(), E>, preflight: bool)
    ensures
        local matches Err(error) ==> member_error(index as int, local, preflight) == (CollectionError::<E>::Member {
            index,
            error,
        }),
        local is Ok && preflight ==> member_error(index as int, local, preflight)
            == (CollectionError::<E>::PeerPreflight { index }),
        local is Ok && !preflight ==> member_error(index as int, local, preflight)
            == (CollectionError::<E>::PeerExecution { index }),
{
}

/// What starting an execution over a collection is refused for, first things first.
pub proof fn law_collection_refusals<E, H: Fn([u64; 5]) -> bool, D: Fn(u64, &Vec<u64>) -> Result<(), FftError>, A>(
    peers: Peers<H, D, A>,
    call: ManyCall,
    descriptor: Vec<u64>,
    outcome: Result<(), CollectionError<E>>,
)
    requires
        begun(peers, call, descriptor, outcome),
        forall|header: [u64; 5], same: bool| #[trigger]
            peers.header.ensures((header,), same) && header@ == call.header() ==> same,
    ensures
        call.sources != call.destinations ==> outcome == Err::<(), CollectionError<E>>(
            CollectionError::CountMismatch { sources: call.sources, destinations: call.destinations },
        ),
        call.sources == call.destinations && call.sources == 0 ==> outcome == Err::<(), CollectionError<E>>(
            CollectionError::Empty,
        ),
        outcome is Ok ==> call.sources == call.destinations && call.sources > 0,
{
}

/// Processes that tell different headers of a collection do not start.
pub proof fn law_collection_headers_differ<E, H: Fn([u64; 5]) -> bool, D: Fn(u64, &Vec<u64>) -> Result<(), FftError>, A>(
    peers: Peers<H, D, A>,
    call: ManyCall,
    descriptor: Vec<u64>,
    outcome: Result<(), CollectionError<E>>,
)
    requires
        begun(peers, call, descriptor, outcome),
        forall|header: [u64; 5], same: bool| #[trigger]
            peers.header.ensures((header,), same) && header@ == call.header() ==> !same,
    ensures
        outcome == Err::<(), CollectionError<E>>(CollectionError::HeaderMismatch),
{
}

/// The errors that all plans share keep what they are in the errors of each plan.
pub proof fn law_shared_errors_kept(error: FftError)
    ensures
        R2rError::spec_of_fft(error) == R2rError::Fft(error),
        R2cError::spec_of_fft(error) == R2cError::Fft(error),
        MixedError::spec_of_fft(error) == MixedError::Fft(error),
        FftOverlapError::<R2cError>::spec_of_fft(error) == FftOverlapError::Operation(R2cError::Fft(error)),
        FftOverlapError::<MixedError>::spec_of_fft(error) == FftOverlapError::Operation(
            MixedError::Fft(error),
        ),
        BackendInitError::<MixedError>::spec_of_fft(error) == BackendInitError::Local(
            MixedError::Fft(error),
        ),
        verdict_of::<R2rError>(Some(error)) == Err::<(), R2rError>(R2rError::Fft(error)),
        verdict_of::<R2cError>(Some(error)) == Err::<(), R2cError>(R2cError::Fft(error)),
        verdict_of::<MixedError>(Some(error)) == Err::<(), MixedError>(MixedError::Fft(error)),
        verdict_of::<R2rError>(None) is Ok,
{
}

/// What a kernel rejects a line with is what the stage reports.
pub proof fn law_kernel_errors_reported(
    c2c: LocalC2cError,
    r2c: LocalR2cError,
    r2r: LocalR2rError,
)
    ensures
        as_r2r_sweep(Err(R2rError::LocalR2r(r2r))) == Err::<(), SweepError<LocalR2rError>>(
            SweepError::Kernel(r2r),
        ),
        as_r2c_sweep(Err(R2cError::LocalR2c(r2c))) == Err::<(), SweepError<LocalR2cError>>(
            SweepError::Kernel(r2c),
        ),
        as_c2c_sweep(Err(FftError::LocalC2c(c2c))) == Err::<(), SweepError<LocalC2cError>>(
            SweepError::Kernel(c2c),
        ),
        as_mixed_sweep(Err(MixedError::Fft(FftError::LocalC2c(c2c)))) == Err::<(), SweepError<LocalError>>(
            SweepError::Kernel(LocalError::C2c(c2c)),
        ),
        as_mixed_sweep(Err(MixedError::LocalR2r(r2r))) == Err::<(), SweepError<LocalError>>(
            SweepError::Kernel(LocalError::R2r(r2r)),
        ),
        as_mixed_sweep(Err(MixedError::LocalR2c(r2c))) == Err::<(), SweepError<LocalError>>(
            SweepError::Kernel(LocalError::R2c(r2c)),
        ),
{
}

/// What a planner refuses a kernel with is what the mixed plan reports.
pub proof fn law_planner_errors_reported(
    kind: AxisR2rKind,
    c2c: BackendInitError<LocalC2cError>,
    r2c: BackendInitError<LocalR2cError>,
    r2r: BackendInitError<LocalR2rError>,
)
    ensures
        spec_mixed_c2c_local(Err(c2c)) == Err::<LocalC2cPlan, BackendInitError<MixedError>>(
            match c2c {
                BackendInitError::Local(error) => BackendInitError::Local(MixedError::LocalC2c(error)),
                BackendInitError::Native(error) => BackendInitError::Native(error),
                BackendInitError::PeerPreflight => BackendInitError::PeerPreflight,
            },
        ),
        spec_mixed_r2c_local(Err(r2c)) == Err::<LocalR2cPlan, BackendInitError<MixedError>>(
            match r2c {
                BackendInitError::Local(error) => BackendInitError::Local(MixedError::LocalR2c(error)),
                BackendInitError::Native(error) => BackendInitError::Native(error),
                BackendInitError::PeerPreflight => BackendInitError::PeerPreflight,
            },
        ),
        spec_mixed_r2r_local(kind, Err(r2r)) == Err::<MixedR2rLocal, BackendInitError<MixedError>>(
            match r2r {
                BackendInitError::Local(error) => BackendInitError::Local(MixedError::LocalR2r(error)),
                BackendInitError::Native(error) => BackendInitError::Native(error),
                BackendInitError::PeerPreflight => BackendInitError::PeerPreflight,
            },
        ),
{
}

/// Headers of constructions that differ in the operation, the number of axes, the number of process
/// dimensions or the length of the descriptor differ.
pub proof fn law_header_words_unique(
    left: (u64, int, int, usize),
    right: (u64, int, int, usize),
)
    requires
        0 <= left.1 <= u64::MAX,
        0 <= left.2 <= u64::MAX,
        0 <= right.1 <= u64::MAX,
        0 <= right.2 <= u64::MAX,
        header_words(left.0, left.1, left.2, Some(left.3)) == header_words(
            right.0,
            right.1,
            right.2,
            Some(right.3),
        ),
    ensures
        left == right,
{
    let one = header_words(left.0, left.1, left.2, Some(left.3));
    let two = header_words(right.0, right.1, right.2, Some(right.3));
    assert(one[1] == two[1]);
    assert(one[2] == two[2]);
    assert(one[3] == two[3]);
    assert(one[4] == two[4]);
}

} // verus!
