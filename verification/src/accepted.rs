//! Arguments that a plan accepts are made for it.

use vstd::prelude::*;

use crate::array::ManyPencilArray;
use crate::array::PencilArray;
use crate::handoff::HalfComplexStorage;
use crate::layout::C2cState;
use crate::layout::Direction;
use crate::layout::Pencil;
use crate::layout::R2cState;
use crate::layout::R2rState;
use crate::mixed_c2c::mixed_c2c_error;
use crate::mixed_c2c::mixed_c2c_in_place_error;
use crate::mixed_c2c::MixedC2cCore;
use crate::mixed_c2c::MixedC2cInPlaceArray;
use crate::mixed_c2c::MixedC2cInPlaceWorkspace;
use crate::mixed_c2c::MixedC2cWorkspace;
use crate::mixed_r2c::complex_lens_of;
use crate::mixed_r2c::lines_error;
use crate::mixed_r2c::mixed_r2c_error;
use crate::mixed_r2c::mixed_r2c_in_place_error;
use crate::mixed_r2c::real_buffers_error;
use crate::mixed_r2c::MixedBuffers;
use crate::mixed_r2c::MixedR2cCore;
use crate::mixed_r2c::MixedR2cInPlaceArray;
use crate::mixed_r2c::MixedR2cInPlaceWorkspace;
use crate::mixed_r2c::MixedR2cWorkspace;
use crate::r2c::r2c_in_place_error;
use crate::r2c::r2c_out_of_place_error;
use crate::r2c::R2cInPlaceArray;
use crate::r2c::R2cInPlaceWorkspace;
use crate::r2c::R2cWorkspace;
use crate::r2c::TransformPlanCore;
use crate::r2r::r2r_in_place_error;
use crate::r2r::r2r_out_of_place_error;
use crate::r2r::R2rCore;
use crate::r2r::R2rInPlaceArray;
use crate::r2r::R2rInPlaceWorkspace;
use crate::r2r::R2rWorkspace;
use crate::registry::has_layout;
use crate::registry::Stage;
use crate::scalar::Complex;
use crate::scalar::FftReal;
use crate::scalar::R2rScalar;
use crate::workspace::lens_error;
use crate::workspace::registered_error;

verus! {

/// Two layouts put the same elements in the same places.
pub open spec fn alike<const N: usize, const M: usize>(left: Pencil<N, M>, right: Pencil<N, M>) -> bool {
    &&& left.topology == right.topology
    &&& left.global_shape@ == right.global_shape@
    &&& left.decomposition@ == right.decomposition@
    &&& left.memory_order@ == right.memory_order@
    &&& left.local_shape@ == right.local_shape@
}

/// Layouts are told apart by what they lay out where, and by nothing else.
pub proof fn law_same_layout_is_alike<const N: usize, const M: usize>(left: Pencil<N, M>, right: Pencil<N, M>)
    ensures
        left.spec_same_layout(&right) <==> alike(left, right),
        has_layout(seq![left], right) <==> alike(left, right),
{
    if alike(left, right) {
        assert(seq![left][0].spec_same_layout(&right));
    }
}

/// The layout that an execution reads first.
pub open spec fn read_from<const N: usize, const M: usize>(stages: Seq<Stage<N, M>>, direction: Direction) -> Pencil<N, M> {
    match direction {
        Direction::Forward => stages[0].input,
        _ => stages[stages.len() - 1].output,
    }
}

/// The layout that an execution leaves its values in.
pub open spec fn left_in<const N: usize, const M: usize>(stages: Seq<Stage<N, M>>, direction: Direction) -> Pencil<N, M> {
    match direction {
        Direction::Forward => stages[stages.len() - 1].output,
        _ => stages[0].input,
    }
}

/// Every layout that is required is held, as it is.
pub open spec fn holds_all<const N: usize, const M: usize>(held: Seq<Pencil<N, M>>, required: Seq<Pencil<N, M>>) -> bool {
    forall|i: int| 0 <= i < required.len() ==> holds_one(held, #[trigger] required[i])
}

/// A layout is held, as it is.
pub open spec fn holds_one<const N: usize, const M: usize>(held: Seq<Pencil<N, M>>, required: Pencil<N, M>) -> bool {
    exists|j: int| 0 <= j < held.len() && alike(#[trigger] held[j], required)
}

/// Arguments that a real-to-real or Hartley plan accepts out of place are made for it: the
/// workspace is its own, the arrays lie as the plan reads and writes them, the extra dimensions
/// are its own, and every buffer is as long as the plan needs it.
pub proof fn law_r2r_accepts<T: R2rScalar, const N: usize, const M: usize>(
    core: R2rCore<N, M>,
    direction: Direction,
    source: PencilArray<T, N, M>,
    destination: PencilArray<T, N, M>,
    workspace: R2rWorkspace<T, N, M>,
)
    requires
        core.wf(),
        r2r_out_of_place_error(core, direction, source, destination, workspace) is None,
    ensures
        workspace.core == core.id,
        alike(source.pencil, read_from(core.stages@, direction)),
        alike(destination.pencil, left_in(core.stages@, direction)),
        source.extra_shape.dimensions@ == core.extra_shape.dimensions@,
        destination.extra_shape.dimensions@ == core.extra_shape.dimensions@,
        workspace.intermediate.extra_shape.dimensions@ == core.extra_shape.dimensions@,
        workspace.intermediate.active is Some,
        workspace.fft_scratch@.len() >= core.lens.fft_scratch,
        workspace.transpose.send@.len() >= core.lens.send,
        workspace.transpose.receive@.len() >= core.lens.receive,
        workspace.embedding_line@.len() >= core.embedding_len,
        workspace.line_buffer@.len() >= core.strided_line_len,
{
    assert(workspace.fft_scratch.len() == workspace.fft_scratch@.len());
    assert(workspace.transpose.send.len() == workspace.transpose.send@.len());
    assert(workspace.transpose.receive.len() == workspace.transpose.receive@.len());
    assert(workspace.embedding_line.len() == workspace.embedding_line@.len());
    assert(workspace.line_buffer.len() == workspace.line_buffer@.len());
}

/// An array and a workspace that a real-to-real or Hartley plan accepts in place are its own,
/// the array holds values that the direction can start from, and every buffer is as long as the
/// plan needs it.
pub proof fn law_r2r_accepts_in_place<T: R2rScalar, const N: usize, const M: usize>(
    core: R2rCore<N, M>,
    direction: Direction,
    array: R2rInPlaceArray<T, N, M>,
    workspace: R2rInPlaceWorkspace<T, N, M>,
)
    requires
        core.wf(),
        r2r_in_place_error(core, direction, array, workspace) is None,
    ensures
        array.core == core.id,
        workspace.core == core.id,
        array.state == match direction {
            Direction::Forward => R2rState::Input,
            _ => R2rState::Output,
        },
        array.array.extra_shape.dimensions@ == core.extra_shape.dimensions@,
        array.array.active matches Some(index) && index < array.array.pencils@.len() && alike(
            array.array.pencils@[index as int],
            read_from(core.stages@, direction),
        ),
        workspace.fft_scratch@.len() >= core.lens.fft_scratch,
        workspace.transpose.send@.len() >= core.lens.send,
        workspace.transpose.receive@.len() >= core.lens.receive,
        workspace.embedding_line@.len() >= core.embedding_len,
        workspace.line_buffer@.len() >= core.strided_line_len,
{
    assert(workspace.fft_scratch.len() == workspace.fft_scratch@.len());
    assert(workspace.transpose.send.len() == workspace.transpose.send@.len());
    assert(workspace.transpose.receive.len() == workspace.transpose.receive@.len());
    assert(workspace.embedding_line.len() == workspace.embedding_line@.len());
    assert(workspace.line_buffer.len() == workspace.line_buffer@.len());
}

/// Arguments that a mixed complex plan accepts out of place are made for it; where it was
/// rebuilt from another, the arrays have its very layouts.
pub proof fn law_mixed_c2c_accepts<R: FftReal, const N: usize, const M: usize>(
    core: MixedC2cCore<N, M>,
    direction: Direction,
    source: PencilArray<Complex<R>, N, M>,
    destination: PencilArray<Complex<R>, N, M>,
    workspace: MixedC2cWorkspace<R, N, M>,
)
    requires
        core.wf(),
        mixed_c2c_error(core, direction, source, destination, workspace) is None,
    ensures
        workspace.core == core.id,
        alike(source.pencil, read_from(core.stages@, direction)),
        alike(destination.pencil, left_in(core.stages@, direction)),
        core.strict_array_identity ==> source.pencil.id == read_from(core.stages@, direction).id
            && destination.pencil.id == left_in(core.stages@, direction).id,
        source.extra_shape.dimensions@ == core.extra_shape.dimensions@,
        destination.extra_shape.dimensions@ == core.extra_shape.dimensions@,
        workspace.intermediate.extra_shape.dimensions@ == core.extra_shape.dimensions@,
        holds_all(workspace.intermediate.pencils@, core.registered_pencils@),
        workspace.fft_scratch@.len() >= core.lens.fft_scratch,
        workspace.transpose.send@.len() >= core.lens.send,
        workspace.transpose.receive@.len() >= core.lens.receive,
        workspace.embedding_line@.len() >= core.embedding_len,
        workspace.line_buffer@.len() >= core.strided_line_len,
{
    lemma_registered(workspace.intermediate, core.registered_pencils@);
    assert(workspace.fft_scratch.len() == workspace.fft_scratch@.len());
    assert(workspace.transpose.send.len() == workspace.transpose.send@.len());
    assert(workspace.transpose.receive.len() == workspace.transpose.receive@.len());
    assert(workspace.embedding_line.len() == workspace.embedding_line@.len());
    assert(workspace.line_buffer.len() == workspace.line_buffer@.len());
}

/// A registry that is accepted holds every layout that is required.
proof fn lemma_registered<T, const N: usize, const M: usize>(
    array: ManyPencilArray<T, N, M>,
    required: Seq<Pencil<N, M>>,
)
    requires
        registered_error(array, required) is None,
    ensures
        holds_all(array.pencils@, required),
{
    assert forall|i: int| 0 <= i < required.len() implies holds_one(array.pencils@, #[trigger] required[i]) by {
        assert(has_layout(array.pencils@, required[i]));
        let j = choose|j: int| 0 <= j < array.pencils@.len() && (#[trigger] array.pencils@[j]).spec_same_layout(&required[i]);
        assert(alike(array.pencils@[j], required[i]));
    }
}

/// An array and a workspace that a mixed complex plan accepts in place are its own, the array holds
/// values that the direction can start from, and every buffer is as long as the plan needs it.
pub proof fn law_mixed_c2c_accepts_in_place<R: FftReal, const N: usize, const M: usize>(
    core: MixedC2cCore<N, M>,
    direction: Direction,
    array: MixedC2cInPlaceArray<R, N, M>,
    workspace: MixedC2cInPlaceWorkspace<R, N, M>,
)
    requires
        core.wf(),
        mixed_c2c_in_place_error(core, direction, array, workspace) is None,
    ensures
        array.core == core.id,
        workspace.core == core.id,
        array.state == match direction {
            Direction::Forward => C2cState::Input,
            _ => C2cState::Output,
        },
        array.array.extra_shape.dimensions@ == core.extra_shape.dimensions@,
        holds_all(array.array.pencils@, core.registered_pencils@),
        array.array.active matches Some(index) && index < array.array.pencils@.len() && alike(
            array.array.pencils@[index as int],
            read_from(core.stages@, direction),
        ),
        workspace.fft_scratch@.len() >= core.lens.fft_scratch,
        workspace.transpose.send@.len() >= core.lens.send,
        workspace.transpose.receive@.len() >= core.lens.receive,
        workspace.embedding_line@.len() >= core.embedding_len,
        workspace.line_buffer@.len() >= core.strided_line_len,
{
    lemma_registered(array.array, core.registered_pencils@);
    assert(workspace.fft_scratch.len() == workspace.fft_scratch@.len());
    assert(workspace.transpose.send.len() == workspace.transpose.send@.len());
    assert(workspace.transpose.receive.len() == workspace.transpose.receive@.len());
    assert(workspace.embedding_line.len() == workspace.embedding_line@.len());
    assert(workspace.line_buffer.len() == workspace.line_buffer@.len());
}

/// Arguments that a real-to-complex plan accepts out of place are made for it.
pub proof fn law_r2c_accepts<R: FftReal, S, U, const N: usize, const M: usize>(
    core: TransformPlanCore<N, M>,
    direction: Direction,
    source: PencilArray<S, N, M>,
    destination: PencilArray<U, N, M>,
    workspace: R2cWorkspace<R, N, M>,
)
    requires
        core.wf(),
        r2c_out_of_place_error(core, direction, source, destination, workspace) is None,
    ensures
        workspace.core == core.id,
        alike(source.pencil, read_from(core.stages@, direction)),
        alike(destination.pencil, left_in(core.stages@, direction)),
        source.extra_shape.dimensions@ == core.extra_shape.dimensions@,
        destination.extra_shape.dimensions@ == core.extra_shape.dimensions@,
        workspace.intermediate.extra_shape.dimensions@ == core.extra_shape.dimensions@,
        workspace.intermediate.active is Some,
        workspace.fft_scratch@.len() >= core.lens.fft_scratch,
        workspace.transpose.send@.len() >= core.lens.send,
        workspace.transpose.receive@.len() >= core.lens.receive,
        core.boundary > 0 ==> {
            &&& workspace.real_intermediate matches Some(reals)
            &&& reals.extra_shape.dimensions@ == core.extra_shape.dimensions@
            &&& holds_all(reals.pencils@, seq![core.stages@[core.boundary as int].input])
            &&& workspace.real_transpose matches Some(buffers)
            &&& buffers.send@.len() >= core.real_lens.send
            &&& buffers.receive@.len() >= core.real_lens.receive
        },
        core.boundary_stride() matches Some(stride) && (stride > 1 ==> workspace.real_source_line matches Some(line)
            && line@.len() >= core.plan().real_len || core.plan().real_len == 0),
        workspace.real_line@.len() >= core.plan().real_len,
        workspace.complex_line@.len() >= core.plan().complex_len,
        workspace.complex_strided_line@.len() >= core.strided_line_len,
{
    assert(workspace.fft_scratch.len() == workspace.fft_scratch@.len());
    assert(workspace.transpose.send.len() == workspace.transpose.send@.len());
    assert(workspace.transpose.receive.len() == workspace.transpose.receive@.len());
    assert(workspace.real_line.len() == workspace.real_line@.len());
    assert(workspace.complex_line.len() == workspace.complex_line@.len());
    assert(workspace.complex_strided_line.len() == workspace.complex_strided_line@.len());
    if let Some(line) = workspace.real_source_line {
        assert(line.len() == line@.len());
    }
    if core.boundary > 0 {
        let reals = workspace.real_intermediate->0;
        let wanted = core.stages@[core.boundary as int].input;
        let j = choose|j: int| 0 <= j < reals.pencils@.len() && (#[trigger] reals.pencils@[j]).spec_same_layout(&wanted);
        assert(alike(reals.pencils@[j], seq![wanted][0]));
        let buffers = workspace.real_transpose->0;
        assert(buffers.send.len() == buffers.send@.len());
        assert(buffers.receive.len() == buffers.receive@.len());
    }
}

/// An array and a workspace that a real-to-complex plan accepts in place are its own, the array
/// holds values that the direction can start from, and every buffer is as long as the plan
/// needs it.
pub proof fn law_r2c_accepts_in_place<R: FftReal, const N: usize, const M: usize>(
    core: TransformPlanCore<N, M>,
    direction: Direction,
    array: R2cInPlaceArray<R, N, M>,
    workspace: R2cInPlaceWorkspace<R, N, M>,
    capacity: usize,
)
    requires
        core.wf(),
        r2c_in_place_error(core, direction, array, workspace, capacity) is None,
    ensures
        array.core == core.id,
        workspace.core == core.id,
        array.state == match direction {
            Direction::Forward => R2cState::RealInput,
            _ => R2cState::ComplexOutput,
        },
        match direction {
            Direction::Forward => {
                &&& array.shared.storage matches Some(HalfComplexStorage::Real(values))
                &&& values.extra_shape.dimensions@ == core.extra_shape.dimensions@
                &&& values.active matches Some(index) && index < values.pencils@.len() && alike(
                    values.pencils@[index as int],
                    core.stages@[0].input,
                )
                &&& values.storage@.len() == array.shared.real_storage_len
                &&& array.shared.complex_pencils is Some
            },
            _ => {
                &&& array.shared.storage matches Some(HalfComplexStorage::Complex(values))
                &&& values.extra_shape.dimensions@ == core.extra_shape.dimensions@
                &&& values.active matches Some(index) && index < values.pencils@.len() && alike(
                    values.pencils@[index as int],
                    core.stages@[core.stages@.len() - 1].output,
                )
                &&& values.storage@.len() == array.shared.complex_storage_len
                &&& array.shared.real_pencils is Some
            },
        },
        workspace.fft_scratch@.len() >= core.lens.fft_scratch,
        workspace.transpose.send@.len() >= core.lens.send,
        workspace.transpose.receive@.len() >= core.lens.receive,
        core.boundary > 0 ==> {
            &&& workspace.real_transpose matches Some(buffers)
            &&& buffers.send@.len() >= core.real_lens.send
            &&& buffers.receive@.len() >= core.real_lens.receive
        },
        workspace.real_line@.len() >= core.plan().real_len,
        workspace.complex_source_line@.len() >= core.plan().complex_len,
        workspace.complex_line@.len() >= core.plan().complex_len,
        workspace.complex_strided_line@.len() >= core.strided_line_len,
{
    assert(workspace.fft_scratch.len() == workspace.fft_scratch@.len());
    assert(workspace.transpose.send.len() == workspace.transpose.send@.len());
    assert(workspace.transpose.receive.len() == workspace.transpose.receive@.len());
    assert(workspace.real_line.len() == workspace.real_line@.len());
    assert(workspace.complex_source_line.len() == workspace.complex_source_line@.len());
    assert(workspace.complex_line.len() == workspace.complex_line@.len());
    assert(workspace.complex_strided_line.len() == workspace.complex_strided_line@.len());
    if core.boundary > 0 {
        let buffers = workspace.real_transpose->0;
        assert(buffers.send.len() == buffers.send@.len());
        assert(buffers.receive.len() == buffers.receive@.len());
    }
}

/// Arguments that a mixed real-to-complex plan accepts out of place are made for it; where it was
/// rebuilt from another, the arrays have its very layouts.
pub proof fn law_mixed_r2c_accepts<R: FftReal, S, U, const N: usize, const M: usize>(
    core: MixedR2cCore<N, M>,
    direction: Direction,
    source: PencilArray<S, N, M>,
    destination: PencilArray<U, N, M>,
    workspace: MixedR2cWorkspace<R, N, M>,
)
    requires
        core.wf(),
        mixed_r2c_error(core, direction, source, destination, workspace) is None,
    ensures
        workspace.core == core.id,
        alike(source.pencil, read_from(core.stages@, direction)),
        alike(destination.pencil, left_in(core.stages@, direction)),
        core.strict_array_identity ==> source.pencil.id == read_from(core.stages@, direction).id
            && destination.pencil.id == left_in(core.stages@, direction).id,
        source.extra_shape.dimensions@ == core.extra_shape.dimensions@,
        destination.extra_shape.dimensions@ == core.extra_shape.dimensions@,
        workspace.intermediate.extra_shape.dimensions@ == core.extra_shape.dimensions@,
        holds_all(workspace.intermediate.pencils@, core.complex_pencils@),
        workspace.real_intermediate is Some <==> core.boundary > 0,
        workspace.real_intermediate matches Some(reals) ==> reals.extra_shape.dimensions@
            == core.extra_shape.dimensions@ && holds_all(reals.pencils@, core.real_pencils@),
        enough_buffers(core, workspace.buffers),
{
    lemma_registered(workspace.intermediate, core.complex_pencils@);
    if let Some(reals) = workspace.real_intermediate {
        lemma_registered(reals, core.real_pencils@);
    }
    lemma_enough(core, workspace.buffers);
}

/// Every buffer is as long as the plan needs it.
pub open spec fn enough_buffers<R: FftReal, const N: usize, const M: usize>(
    core: MixedR2cCore<N, M>,
    buffers: MixedBuffers<R>,
) -> bool {
    &&& buffers.fft_scratch@.len() >= core.lens.fft_scratch
    &&& buffers.transpose.send@.len() >= core.lens.send
    &&& buffers.transpose.receive@.len() >= core.lens.receive
    &&& buffers.real_transpose is Some <==> core.boundary > 0
    &&& buffers.real_transpose matches Some(exchanged) ==> exchanged.send@.len() >= core.real_lens.send
        && exchanged.receive@.len() >= core.real_lens.receive
    &&& buffers.embedding_line@.len() >= core.embedding_len
    &&& buffers.real_source_line@.len() >= core.plan().real_len
    &&& buffers.real_line@.len() >= core.plan().real_len
    &&& buffers.real_line@.len() >= core.real_line_len
    &&& buffers.real_strided_line@.len() >= core.real_line_len
    &&& buffers.complex_source_line@.len() >= core.plan().complex_len
    &&& buffers.complex_line@.len() >= core.plan().complex_len
    &&& buffers.complex_line@.len() >= core.complex_line_len
    &&& buffers.complex_strided_line@.len() >= core.complex_line_len
}

proof fn lemma_enough<R: FftReal, const N: usize, const M: usize>(
    core: MixedR2cCore<N, M>,
    buffers: MixedBuffers<R>,
)
    requires
        lens_error(complex_lens_of(buffers), core.lens) is None,
        real_buffers_error(core, buffers) is None,
        lines_error(core, buffers) is None,
    ensures
        enough_buffers(core, buffers),
{
    assert(buffers.fft_scratch.len() == buffers.fft_scratch@.len());
    assert(buffers.transpose.send.len() == buffers.transpose.send@.len());
    assert(buffers.transpose.receive.len() == buffers.transpose.receive@.len());
    assert(buffers.embedding_line.len() == buffers.embedding_line@.len());
    assert(buffers.real_source_line.len() == buffers.real_source_line@.len());
    assert(buffers.real_line.len() == buffers.real_line@.len());
    assert(buffers.real_strided_line.len() == buffers.real_strided_line@.len());
    assert(buffers.complex_source_line.len() == buffers.complex_source_line@.len());
    assert(buffers.complex_line.len() == buffers.complex_line@.len());
    assert(buffers.complex_strided_line.len() == buffers.complex_strided_line@.len());
    if let Some(exchanged) = buffers.real_transpose {
        assert(exchanged.send.len() == exchanged.send@.len());
        assert(exchanged.receive.len() == exchanged.receive@.len());
    }
}

/// An array and a workspace that a mixed real-to-complex plan accepts in place are its own, the
/// array holds values that the direction can start from, and every buffer is as long as the
/// plan needs it.
pub proof fn law_mixed_r2c_accepts_in_place<R: FftReal, const N: usize, const M: usize>(
    core: MixedR2cCore<N, M>,
    direction: Direction,
    array: MixedR2cInPlaceArray<R, N, M>,
    workspace: MixedR2cInPlaceWorkspace<R, N, M>,
    capacity: usize,
)
    requires
        core.wf(),
        mixed_r2c_in_place_error(core, direction, array, workspace, capacity) is None,
    ensures
        array.core == core.id,
        workspace.core == core.id,
        array.state == match direction {
            Direction::Forward => R2cState::RealInput,
            _ => R2cState::ComplexOutput,
        },
        match direction {
            Direction::Forward => {
                &&& array.shared.storage matches Some(HalfComplexStorage::Real(values))
                &&& values.extra_shape.dimensions@ == core.extra_shape.dimensions@
                &&& values.active matches Some(index) && index < values.pencils@.len() && alike(
                    values.pencils@[index as int],
                    core.stages@[0].input,
                )
                &&& values.storage@.len() == array.shared.real_storage_len
                &&& holds_all(values.pencils@, core.real_pencils@)
                &&& array.shared.complex_pencils is Some
            },
            _ => {
                &&& array.shared.storage matches Some(HalfComplexStorage::Complex(values))
                &&& values.extra_shape.dimensions@ == core.extra_shape.dimensions@
                &&& values.active matches Some(index) && index < values.pencils@.len() && alike(
                    values.pencils@[index as int],
                    core.stages@[core.stages@.len() - 1].output,
                )
                &&& values.storage@.len() == array.shared.complex_storage_len
                &&& holds_all(values.pencils@, core.complex_pencils@)
                &&& array.shared.real_pencils is Some
            },
        },
        enough_buffers(core, workspace.buffers),
{
    lemma_enough(core, workspace.buffers);
    match array.shared.storage {
        Some(HalfComplexStorage::Real(values)) => {
            if direction == Direction::Forward {
                lemma_registered(values, core.real_pencils@);
            }
        },
        Some(HalfComplexStorage::Complex(values)) => {
            if direction != Direction::Forward {
                lemma_registered(values, core.complex_pencils@);
            }
        },
        _ => {},
    }
}

} // verus!
