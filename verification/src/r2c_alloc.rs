//! Buffers and arrays of a real-to-complex plan.

use vstd::prelude::*;

use crate::array::ManyPencilArray;
use crate::array::PencilArray;
use crate::error::FftError;
use crate::error::R2cError;
use crate::layout::memory_stride;
use crate::layout::Direction;
use crate::layout::Pencil;
use crate::layout::R2cState;
use crate::r2c::covers_stages;
use crate::r2c::in_place_buffer_error;
use crate::r2c::inactive_registered;
use crate::r2c::r2c_in_place_error;
use crate::r2c::r2c_out_of_place_error;
use crate::r2c::storage_len_error;
use crate::r2c::storage_side_error;
use crate::r2c::R2cInPlaceArray;
use crate::r2c::R2cInPlaceWorkspace;
use crate::r2c::R2cWorkspace;
use crate::r2c::TransformPlanCore;
use crate::registry::all_distinct;
use crate::registry::distinct_layouts;
use crate::registry::has_layout;
use crate::registry::inputs_of;
use crate::registry::is_empty_room;
use crate::registry::largest_local_len;
use crate::registry::lemma_distinct_layouts;
use crate::registry::outputs_of;
use crate::registry::registered_real_stage_pencils;
use crate::registry::registered_real_stage_pencils_in;
use crate::registry::registered_stage_pencils;
use crate::registry::registered_stage_pencils_in;
use crate::registry::room_for;
use crate::registry::room_where;
use crate::registry::Stage;
use crate::scalar::Complex;
use crate::scalar::FftReal;
use crate::shared::allocate_shared_in;
use crate::shared::fresh_shared;
use crate::shared::lemma_distinct_largest;
use crate::shared::real_side;
use crate::shared::shared_error;
use crate::shared::shared_room;
use crate::shared::shared_wf;
use crate::storage::real_need;
use crate::storage::pairs_fit;
use crate::storage::storage_needs;
use crate::storage::strided_phase_of;
use crate::workspace::all_are;
use crate::workspace::allocation_error;
use crate::workspace::filled_array;
use crate::workspace::freshly_registered;
use crate::workspace::initialized_vec_in;
use crate::workspace::no_room;
use crate::workspace::some_allocation_error;
use crate::workspace::zero_complex;
use crate::workspace::TransposeWorkspace;

verus! {

/// A buffer of one value, there or not.
pub open spec fn optional_line<T>(line: Option<Vec<T>>, there: bool, len: usize, value: T) -> bool {
    match line {
        Some(elements) => there && all_are(elements@, len as int, value),
        None => !there,
    }
}

/// Buffers of exchanges with one value, there or not.
pub open spec fn optional_buffers<T: Copy>(buffers: Option<TransposeWorkspace<T>>, there: bool, send: usize, receive: usize, value: T) -> bool {
    match buffers {
        Some(workspace) => there && workspace.filled(send, receive, value),
        None => !there,
    }
}

/// Boundary lines do not lie in one piece.
pub open spec fn strided_boundary<const N: usize, const M: usize>(core: TransformPlanCore<N, M>) -> bool {
    core.boundary_stride() matches Some(stride) && stride > 1
}

/// Buffers that were just allocated for in-place executions of a plan.
pub open spec fn fresh_r2c_buffers<R: FftReal, const N: usize, const M: usize>(
    core: TransformPlanCore<N, M>,
    workspace: R2cInPlaceWorkspace<R, N, M>,
) -> bool {
    let zero = R::zero_bits();
    let pair = [R::zero_bits(), R::zero_bits()];
    &&& core.boundary_stride() is Some
    &&& workspace.core == core.id
    &&& workspace.transpose.filled(core.lens.send, core.lens.receive, pair)
    &&& optional_buffers(
        workspace.real_transpose,
        core.boundary > 0,
        core.real_lens.send,
        core.real_lens.receive,
        zero,
    )
    &&& all_are(workspace.fft_scratch@, core.lens.fft_scratch as int, pair)
    &&& optional_line(
        workspace.real_source_line,
        strided_boundary(core),
        core.plan().real_len,
        zero,
    )
    &&& all_are(workspace.real_line@, core.plan().real_len as int, zero)
    &&& all_are(workspace.complex_source_line@, core.plan().complex_len as int, pair)
    &&& all_are(workspace.complex_line@, core.plan().complex_len as int, pair)
    &&& all_are(workspace.complex_strided_line@, core.strided_line_len as int, pair)
}

/// A workspace that was just allocated for a plan.
pub open spec fn fresh_r2c_workspace<R: FftReal, const N: usize, const M: usize>(
    core: TransformPlanCore<N, M>,
    workspace: R2cWorkspace<R, N, M>,
) -> bool {
    let zero = R::zero_bits();
    let pair = [R::zero_bits(), R::zero_bits()];
    &&& core.boundary_stride() is Some
    &&& workspace.core == core.id
    &&& freshly_registered(
        workspace.intermediate,
        core.complex_registered(),
        core.extra_shape,
        pair,
    )
    &&& match workspace.real_intermediate {
        Some(values) => core.boundary > 0 && freshly_registered(
            values,
            core.real_registered(),
            core.extra_shape,
            zero,
        ),
        None => core.boundary == 0,
    }
    &&& workspace.transpose.filled(core.lens.send, core.lens.receive, pair)
    &&& optional_buffers(
        workspace.real_transpose,
        core.boundary > 0,
        core.real_lens.send,
        core.real_lens.receive,
        zero,
    )
    &&& all_are(workspace.fft_scratch@, core.lens.fft_scratch as int, pair)
    &&& optional_line(
        workspace.real_source_line,
        strided_boundary(core),
        core.plan().real_len,
        zero,
    )
    &&& all_are(workspace.real_line@, core.plan().real_len as int, zero)
    &&& all_are(workspace.complex_line@, core.plan().complex_len as int, pair)
    &&& all_are(workspace.complex_strided_line@, core.strided_line_len as int, pair)
}

/// An in-place array that was just allocated for a plan.
pub open spec fn fresh_r2c_array<R: FftReal, const N: usize, const M: usize>(
    core: TransformPlanCore<N, M>,
    array: R2cInPlaceArray<R, N, M>,
) -> bool {
    &&& array.core == core.id
    &&& array.state == R2cState::RealInput
    &&& fresh_shared(array.shared, core.stages@, core.boundary, core.extra_shape)
    &&& shared_wf(array.shared)
}

/// Fills the room that there is for buffers of exchanges, where they are needed.
pub fn allocate_optional_in<T: Copy>(
    there: bool,
    send_room: Option<Vec<T>>,
    receive_room: Option<Vec<T>>,
    send: usize,
    receive: usize,
    value: T,
) -> (result: Result<Option<TransposeWorkspace<T>>, FftError>)
    requires
        is_empty_room(send_room),
        is_empty_room(receive_room),
    ensures
        if there && send_room is None {
            result == Err::<Option<TransposeWorkspace<T>>, FftError>(
                FftError::AllocationFailed { required: send },
            )
        } else if there && receive_room is None {
            result == Err::<Option<TransposeWorkspace<T>>, FftError>(
                FftError::AllocationFailed { required: receive },
            )
        } else {
            result matches Ok(buffers) && optional_buffers(buffers, there, send, receive, value)
        },
{
    if !there {
        return Ok(None);
    }
    match TransposeWorkspace::allocate_in(send_room, receive_room, send, receive, value) {
        Ok(workspace) => Ok(Some(workspace)),
        Err(error) => Err(error),
    }
}

/// Fills the room that there is for a line, where it is needed.
fn allocate_line_in<T: Copy>(there: bool, room: Option<Vec<T>>, len: usize, value: T) -> (result: Result<
    Option<Vec<T>>,
    FftError,
>)
    requires
        is_empty_room(room),
    ensures
        if there && room is None {
            result == Err::<Option<Vec<T>>, FftError>(FftError::AllocationFailed { required: len })
        } else {
            result matches Ok(line) && optional_line(line, there, len, value)
        },
{
    if !there {
        return Ok(None);
    }
    match initialized_vec_in(room, len, value) {
        Ok(line) => Ok(Some(line)),
        Err(error) => Err(error),
    }
}

/// Answers to the requests for the buffers of a plan: each is an empty list with room, or nothing.
pub struct R2cRooms<R: FftReal> {
    /// What is sent of real values.
    pub real_send: Option<Vec<R>>,
    /// What is received of real values.
    pub real_receive: Option<Vec<R>>,
    /// What is sent of complex values.
    pub send: Option<Vec<Complex<R>>>,
    /// What is received of complex values.
    pub receive: Option<Vec<Complex<R>>>,
    /// The scratch buffer.
    pub scratch: Option<Vec<Complex<R>>>,
    /// A real line that the boundary reads.
    pub real_source: Option<Vec<R>>,
    /// A real line that the boundary writes.
    pub real_line: Option<Vec<R>>,
    /// A complex line that the boundary reads.
    pub complex_source: Option<Vec<Complex<R>>>,
    /// A complex line that the boundary writes.
    pub complex_line: Option<Vec<Complex<R>>>,
    /// The strided line.
    pub strided_line: Option<Vec<Complex<R>>>,
}

impl<R: FftReal> R2cRooms<R> {
    /// The lists hold nothing yet.
    pub open spec fn wf(&self) -> bool {
        &&& is_empty_room(self.real_send)
        &&& is_empty_room(self.real_receive)
        &&& is_empty_room(self.send)
        &&& is_empty_room(self.receive)
        &&& is_empty_room(self.scratch)
        &&& is_empty_room(self.real_source)
        &&& is_empty_room(self.real_line)
        &&& is_empty_room(self.complex_source)
        &&& is_empty_room(self.complex_line)
        &&& is_empty_room(self.strided_line)
    }
}

impl<const N: usize, const M: usize> TransformPlanCore<N, M> {
    /// The layouts that complex values may lie in.
    pub open spec fn complex_registered(&self) -> Seq<Pencil<N, M>> {
        distinct_layouts(outputs_of(self.stages@.skip(self.boundary as int)))
    }

    /// The layouts that real values may lie in.
    pub open spec fn real_registered(&self) -> Seq<Pencil<N, M>> {
        distinct_layouts(inputs_of(self.stages@.take(self.boundary + 1)))
    }

    /// Elements of the buffers that an execution needs, each of which may fail to be allocated.
    pub open spec fn buffer_lens(&self) -> Seq<int> {
        seq![
            self.stages@.len() - self.boundary,
            largest_local_len(self.complex_registered()) * self.extra_shape.element_count,
            self.boundary + 1,
            largest_local_len(self.real_registered()) * self.extra_shape.element_count,
            self.lens.send as int,
            self.lens.receive as int,
            self.real_lens.send as int,
            self.real_lens.receive as int,
            self.lens.fft_scratch as int,
            self.plan().real_len as int,
            self.plan().complex_len as int,
            self.strided_line_len as int,
        ]
    }

    /// Why buffers could not be allocated.
    pub open spec fn buffers_refused(&self, error: R2cError) -> bool {
        error matches R2cError::Fft(fault) && {
            ||| some_allocation_error(fault, self.buffer_lens())
            ||| fault == FftError::PreparationFailed && self.boundary_stride() is None
        }
    }

    proof fn lemma_registered(&self)
        requires
            self.wf(),
        ensures
            self.complex_registered().len() > 0,
            all_distinct(self.complex_registered()),
            self.real_registered().len() > 0,
            all_distinct(self.real_registered()),
            self.real_registered()[0] == self.spec_input(),
            has_layout(self.real_registered(), self.stages@[self.boundary as int].input),
            has_layout(
                outputs_of(self.stages@.skip(self.boundary as int)),
                self.complex_registered()[0],
            ),
    {
        let outputs = outputs_of(self.stages@.skip(self.boundary as int));
        let inputs = inputs_of(self.stages@.take(self.boundary + 1));
        lemma_distinct_layouts(outputs);
        lemma_distinct_layouts(inputs);
        assert(outputs[0] == self.stages@[self.boundary as int].output);
        assert(inputs[0] == self.stages@[0].input);
        assert(inputs[self.boundary as int] == self.stages@[self.boundary as int].input);
        assert(outputs[0].spec_same_layout(&outputs[0]));
    }

    /// Returns whether boundary lines do not lie in one piece.
    fn boundary_is_strided(&self) -> (result: Result<bool, R2cError>)
        requires
            self.wf(),
        ensures
            match result {
                Ok(strided) => self.boundary_stride() is Some && strided == strided_boundary(*self),
                Err(error) => error == R2cError::Fft(FftError::PreparationFailed)
                    && self.boundary_stride() is None,
            },
    {
        let stage: Stage<N, M> = self.stages[self.boundary];
        proof {
            assert(self.stages@[self.boundary as int].wf());
        }
        match memory_stride(&stage.input, stage.axis) {
            Ok(stride) => Ok(stride > 1),
            Err(_) => Err(R2cError::Fft(FftError::PreparationFailed)),
        }
    }

    /// Why the buffers cannot be allocated: the first one that there is no room for, or the
    /// boundary's lines, which lie in memory nowhere.
    pub open spec fn buffers_fault<R: FftReal>(&self, rooms: R2cRooms<R>) -> Option<FftError> {
        if self.boundary > 0 && rooms.real_send is None {
            no_room(self.real_lens.send)
        } else if self.boundary > 0 && rooms.real_receive is None {
            no_room(self.real_lens.receive)
        } else if self.boundary_stride() is None {
            Some(FftError::PreparationFailed)
        } else if rooms.send is None {
            no_room(self.lens.send)
        } else if rooms.receive is None {
            no_room(self.lens.receive)
        } else if rooms.scratch is None {
            no_room(self.lens.fft_scratch)
        } else if strided_boundary(*self) && rooms.real_source is None {
            no_room(self.plan().real_len)
        } else if rooms.real_line is None {
            no_room(self.plan().real_len)
        } else if rooms.complex_source is None {
            no_room(self.plan().complex_len)
        } else if rooms.complex_line is None {
            no_room(self.plan().complex_len)
        } else if rooms.strided_line is None {
            no_room(self.strided_line_len)
        } else {
            None
        }
    }

    /// Fills the room that there is for the buffers of an in-place execution.
    pub fn allocate_buffers_in<R: FftReal>(&self, rooms: R2cRooms<R>) -> (result: Result<
        R2cInPlaceWorkspace<R, N, M>,
        R2cError,
    >)
        requires
            self.wf(),
            rooms.wf(),
        ensures
            match self.buffers_fault(rooms) {
                None => result matches Ok(workspace) && fresh_r2c_buffers(*self, workspace),
                Some(fault) => result == Err::<R2cInPlaceWorkspace<R, N, M>, R2cError>(
                    R2cError::Fft(fault),
                ),
            },
    {
        let (real_len, complex_len): (usize, usize) = self.r2c_lengths();
        let pair: Complex<R> = zero_complex::<R>();
        let zero: R = R::zero();
        let real_transpose = match allocate_optional_in(
            self.boundary > 0,
            rooms.real_send,
            rooms.real_receive,
            self.real_lens.send,
            self.real_lens.receive,
            zero,
        ) {
            Ok(elements) => elements,
            Err(fault) => {
                return Err(R2cError::Fft(fault));
            },
        };
        let strided: bool = match self.boundary_is_strided() {
            Ok(strided) => strided,
            Err(error) => {
                return Err(error);
            },
        };
        let transpose = match TransposeWorkspace::allocate_in(
            rooms.send,
            rooms.receive,
            self.lens.send,
            self.lens.receive,
            pair,
        ) {
            Ok(elements) => elements,
            Err(fault) => {
                return Err(R2cError::Fft(fault));
            },
        };
        let fft_scratch = match initialized_vec_in(rooms.scratch, self.lens.fft_scratch, pair) {
            Ok(elements) => elements,
            Err(fault) => {
                return Err(R2cError::Fft(fault));
            },
        };
        let real_source_line = match allocate_line_in(strided, rooms.real_source, real_len, zero) {
            Ok(elements) => elements,
            Err(fault) => {
                return Err(R2cError::Fft(fault));
            },
        };
        let real_line = match initialized_vec_in(rooms.real_line, real_len, zero) {
            Ok(elements) => elements,
            Err(fault) => {
                return Err(R2cError::Fft(fault));
            },
        };
        let complex_source_line = match initialized_vec_in(rooms.complex_source, complex_len, pair) {
            Ok(elements) => elements,
            Err(fault) => {
                return Err(R2cError::Fft(fault));
            },
        };
        let complex_line = match initialized_vec_in(rooms.complex_line, complex_len, pair) {
            Ok(elements) => elements,
            Err(fault) => {
                return Err(R2cError::Fft(fault));
            },
        };
        let complex_strided_line = match initialized_vec_in(
            rooms.strided_line,
            self.strided_line_len,
            pair,
        ) {
            Ok(elements) => elements,
            Err(fault) => {
                return Err(R2cError::Fft(fault));
            },
        };
        Ok(
            R2cInPlaceWorkspace {
                core: self.id,
                transpose,
                real_transpose,
                fft_scratch,
                real_source_line,
                real_line,
                complex_source_line,
                complex_line,
                complex_strided_line,
            },
        )
    }

    /// Allocates the buffers of an in-place execution. Whether there is room rests on the machine;
    /// [`TransformPlanCore::allocate_buffers_in`] says what follows for each answer.
    pub fn allocate_buffers<R: FftReal>(&self) -> (result: Result<
        R2cInPlaceWorkspace<R, N, M>,
        R2cError,
    >)
        requires
            self.wf(),
        ensures
            match result {
                Ok(workspace) => fresh_r2c_buffers(*self, workspace),
                Err(error) => self.buffers_refused(error),
            },
    {
        let ghost lens = self.buffer_lens();
        let (real_len, complex_len): (usize, usize) = self.r2c_lengths();
        let rooms = R2cRooms::<R> {
            real_send: room_where(self.boundary > 0, self.real_lens.send),
            real_receive: room_where(self.boundary > 0, self.real_lens.receive),
            send: room_for(self.lens.send),
            receive: room_for(self.lens.receive),
            scratch: room_for(self.lens.fft_scratch),
            real_source: match self.boundary_is_strided() {
                Ok(strided) => room_where(strided, real_len),
                Err(_) => None,
            },
            real_line: room_for(real_len),
            complex_source: room_for(complex_len),
            complex_line: room_for(complex_len),
            strided_line: room_for(self.strided_line_len),
        };
        proof {
            assert(lens[4] == self.lens.send && lens[5] == self.lens.receive);
            assert(lens[6] == self.real_lens.send && lens[7] == self.real_lens.receive);
            assert(lens[8] == self.lens.fft_scratch && lens[9] == self.plan().real_len);
            assert(lens[10] == self.plan().complex_len && lens[11] == self.strided_line_len);
        }
        self.allocate_buffers_in(rooms)
    }

    /// Allocates the complex values between the stages.
    fn allocate_complex<R: FftReal>(&self) -> (result: Result<
        ManyPencilArray<Complex<R>, N, M>,
        R2cError,
    >)
        requires
            self.wf(),
        ensures
            match result {
                Ok(values) => freshly_registered(
                    values,
                    self.complex_registered(),
                    self.extra_shape,
                    [R::zero_bits(), R::zero_bits()],
                ),
                Err(error) => self.buffers_refused(error),
            },
    {
        proof {
            self.lemma_registered();
        }
        let ghost lens = self.buffer_lens();
        let count: usize = self.stages.len();
        assert(lens[0] == count - self.boundary);
        let pencils = match registered_stage_pencils(&self.stages, self.boundary) {
            Ok(elements) => elements,
            Err(fault) => {
                assert(allocation_error(fault, lens[0]));
                return Err(R2cError::Fft(fault));
            },
        };
        let values = match ManyPencilArray::from_elem(&pencils, &self.extra_shape, zero_complex::<R>()) {
            Ok(elements) => elements,
            Err(fault) => {
                assert(allocation_error(fault, lens[1]));
                return Err(R2cError::Fft(fault));
            },
        };
        Ok(values)
    }

    /// Allocates the real values between the stages.
    fn allocate_real<R: FftReal>(&self) -> (result: Result<ManyPencilArray<R, N, M>, R2cError>)
        requires
            self.wf(),
        ensures
            match result {
                Ok(values) => freshly_registered(
                    values,
                    self.real_registered(),
                    self.extra_shape,
                    R::zero_bits(),
                ),
                Err(error) => self.buffers_refused(error),
            },
    {
        proof {
            self.lemma_registered();
        }
        let ghost lens = self.buffer_lens();
        let count: usize = self.stages.len();
        assert(lens[2] <= count);
        let pencils = match registered_real_stage_pencils(&self.stages, self.boundary) {
            Ok(elements) => elements,
            Err(fault) => {
                assert(allocation_error(fault, lens[2]));
                return Err(R2cError::Fft(fault));
            },
        };
        let values = match ManyPencilArray::from_elem(&pencils, &self.extra_shape, R::zero()) {
            Ok(elements) => elements,
            Err(fault) => {
                assert(allocation_error(fault, lens[3]));
                return Err(R2cError::Fft(fault));
            },
        };
        Ok(values)
    }

    /// Allocates the buffers of an out-of-place execution.
    pub fn allocate_workspace<R: FftReal>(&self) -> (result: Result<
        R2cWorkspace<R, N, M>,
        R2cError,
    >)
        requires
            self.wf(),
        ensures
            match result {
                Ok(workspace) => fresh_r2c_workspace(*self, workspace),
                Err(error) => self.buffers_refused(error),
            },
    {
        let intermediate = match self.allocate_complex::<R>() {
            Ok(values) => values,
            Err(error) => {
                return Err(error);
            },
        };
        let real_intermediate = if self.boundary == 0 {
            None
        } else {
            match self.allocate_real::<R>() {
                Ok(values) => Some(values),
                Err(error) => {
                    return Err(error);
                },
            }
        };
        match self.allocate_buffers::<R>() {
            Ok(buffers) => Ok(
                R2cWorkspace {
                    core: self.id,
                    intermediate,
                    transpose: buffers.transpose,
                    real_intermediate,
                    real_transpose: buffers.real_transpose,
                    fft_scratch: buffers.fft_scratch,
                    real_source_line: buffers.real_source_line,
                    real_line: buffers.real_line,
                    complex_line: buffers.complex_line,
                    complex_strided_line: buffers.complex_strided_line,
                },
            ),
            Err(error) => Err(error),
        }
    }

    /// Why an in-place array could not be allocated.
    pub open spec fn array_refused<R: FftReal>(&self, error: R2cError) -> bool {
        error matches R2cError::Fft(fault) && {
            ||| some_allocation_error(fault, self.buffer_lens())
            ||| shared_error::<R, N, M>(fault, self.stages@, self.boundary, self.extra_shape)
        }
    }

    /// Makes an array for in-place executions in the rooms for its two lists of layouts and for its
    /// values.
    pub fn allocate_in_place_in<R: FftReal>(
        &self,
        real_room: Option<Vec<Pencil<N, M>>>,
        complex_room: Option<Vec<Pencil<N, M>>>,
        room: Option<Vec<Complex<R>>>,
    ) -> (result: Result<R2cInPlaceArray<R, N, M>, R2cError>)
        requires
            self.wf(),
            is_empty_room(real_room),
            is_empty_room(complex_room),
            is_empty_room(room),
        ensures
            match (
                real_room,
                complex_room,
                storage_needs(
                    self.stages@,
                    Some(self.boundary),
                    self.extra_shape.element_count as int,
                    R::bytes() as int,
                ),
                room,
            ) {
                (None, _, _, _) => result == Err::<R2cInPlaceArray<R, N, M>, R2cError>(
                    R2cError::Fft(
                        FftError::AllocationFailed { required: (self.boundary + 1) as usize },
                    ),
                ),
                (_, None, _, _) => result == Err::<R2cInPlaceArray<R, N, M>, R2cError>(
                    R2cError::Fft(
                        FftError::AllocationFailed {
                            required: (self.stages@.len() - self.boundary) as usize,
                        },
                    ),
                ),
                (_, _, None, _) => result == Err::<R2cInPlaceArray<R, N, M>, R2cError>(
                    R2cError::Fft(FftError::PreparationFailed),
                ),
                (_, _, Some(needs), None) => result == Err::<R2cInPlaceArray<R, N, M>, R2cError>(
                    R2cError::Fft(
                        FftError::AllocationFailed { required: needs.complex_capacity },
                    ),
                ),
                _ => result matches Ok(array) && fresh_r2c_array(*self, array),
            },
    {
        let count: usize = self.stages.len();
        assert(self.boundary < count);
        let real_pencils = match registered_real_stage_pencils_in(
            real_room,
            &self.stages,
            self.boundary,
        ) {
            Ok(elements) => elements,
            Err(fault) => {
                return Err(R2cError::Fft(fault));
            },
        };
        let complex_pencils = match registered_stage_pencils_in(
            complex_room,
            &self.stages,
            self.boundary,
        ) {
            Ok(elements) => elements,
            Err(fault) => {
                return Err(R2cError::Fft(fault));
            },
        };
        match allocate_shared_in(
            room,
            &self.stages,
            self.boundary,
            &self.extra_shape,
            real_pencils,
            complex_pencils,
        ) {
            Ok(shared) => Ok(
                R2cInPlaceArray { core: self.id, shared, state: R2cState::RealInput },
            ),
            Err(fault) => Err(R2cError::Fft(fault)),
        }
    }

    /// Allocates an array for in-place executions. Whether there is room for it rests on the
    /// machine; `allocate_in_place_in` says what follows for each answer.
    pub fn allocate_in_place<R: FftReal>(&self) -> (result: Result<
        R2cInPlaceArray<R, N, M>,
        R2cError,
    >)
        requires
            self.wf(),
        ensures
            match result {
                Ok(array) => fresh_r2c_array(*self, array),
                Err(error) => self.array_refused::<R>(error),
            },
    {
        let ghost lens = self.buffer_lens();
        let count: usize = self.stages.len();
        assert(lens[2] <= count);
        assert(lens[0] == count - self.boundary);
        let real_room: Option<Vec<Pencil<N, M>>> = room_for(self.boundary + 1);
        let complex_room: Option<Vec<Pencil<N, M>>> = room_for(count - self.boundary);
        let room: Option<Vec<Complex<R>>> = shared_room(
            &self.stages,
            self.boundary,
            &self.extra_shape,
        );
        let result = self.allocate_in_place_in(real_room, complex_room, room);
        proof {
            if let Err(R2cError::Fft(fault)) = result {
                if real_room is None {
                    assert(allocation_error(fault, lens[2]));
                } else if complex_room is None {
                    assert(allocation_error(fault, lens[0]));
                }
            }
        }
        result
    }

    /// A plan accepts the arrays and the workspace that it allocated itself.
    pub proof fn law_own_workspace_accepted<R: FftReal, S, U>(
        &self,
        direction: Direction,
        source: PencilArray<S, N, M>,
        destination: PencilArray<U, N, M>,
        workspace: R2cWorkspace<R, N, M>,
        from: S,
        to: U,
    )
        requires
            self.wf(),
            self.real_lens.fft_scratch == self.lens.fft_scratch,
            filled_array(source, self.source_pencil(direction), self.extra_shape, from),
            filled_array(destination, self.destination_pencil(direction), self.extra_shape, to),
            fresh_r2c_workspace(*self, workspace),
        ensures
            r2c_out_of_place_error(*self, direction, source, destination, workspace) is None,
    {
        self.lemma_registered();
    }

    /// A plan whose boundary lines fill whole blocks accepts the in-place array and workspace that
    /// it allocated itself, if the allocator gave an allocation that can be read as either kind of
    /// value.
    pub proof fn law_own_array_accepted<R: FftReal>(
        &self,
        array: R2cInPlaceArray<R, N, M>,
        workspace: R2cInPlaceWorkspace<R, N, M>,
        capacity: usize,
    )
        requires
            self.wf(),
            self.real_lens.fft_scratch == self.lens.fft_scratch,
            fresh_r2c_array(*self, array),
            fresh_r2c_buffers(*self, workspace),
            strided_phase_of(
                self.stages@,
                Some(self.boundary),
                self.plan(),
                self.extra_shape.element_count as int,
                R::bytes() as int,
            ) is Ok,
            pairs_fit::<R>(
                    capacity as int,
                array.shared.storage_bytes as int,
            ),
        ensures
            r2c_in_place_error(*self, Direction::Forward, array, workspace, capacity) is None,
    {
        self.lemma_own_sides(array);
        self.lemma_own_buffers(workspace);
        self.lemma_own_len();
        let values = real_side(array.shared);
        let stored: usize = values.storage.len();
        assert(values.storage@.len() == stored);
        assert(storage_len_error(*self, array.shared, capacity) is None);
    }

    proof fn lemma_own_len(&self)
        requires
            self.wf(),
        ensures
            real_need(self.stages@, self.boundary as int, self.extra_shape.element_count as int)
                == largest_local_len(self.real_registered()) * self.extra_shape.element_count,
    {
        let inputs = inputs_of(self.stages@.take(self.boundary + 1));
        assert forall|i: int| 0 <= i < inputs.len() implies (#[trigger] inputs[i]).wf() by {
            assert(inputs[i] == self.stages@[i].input);
            assert(self.stages@[i].wf());
        }
        lemma_distinct_largest(inputs);
    }

    proof fn lemma_covers(&self)
        requires
            self.wf(),
        ensures
            covers_stages(
                self.complex_registered(),
                self.stages@,
                self.boundary as int,
                self.stages@.len() as int,
                false,
            ),
            covers_stages(self.real_registered(), self.stages@, 0, self.boundary + 1, true),
    {
        let outputs = outputs_of(self.stages@.skip(self.boundary as int));
        let inputs = inputs_of(self.stages@.take(self.boundary + 1));
        lemma_distinct_layouts(outputs);
        lemma_distinct_layouts(inputs);
        assert forall|i: int|
            self.boundary <= i < self.stages@.len() implies has_layout(
            self.complex_registered(),
            (#[trigger] self.stages@[i]).output,
        ) by {
            assert(outputs[i - self.boundary] == self.stages@[i].output);
        }
        assert forall|i: int| 0 <= i < self.boundary + 1 implies has_layout(
            self.real_registered(),
            (#[trigger] self.stages@[i]).input,
        ) by {
            assert(inputs[i] == self.stages@[i].input);
        }
    }

    proof fn lemma_own_sides<R: FftReal>(&self, array: R2cInPlaceArray<R, N, M>)
        requires
            self.wf(),
            fresh_r2c_array(*self, array),
        ensures
            inactive_registered(*self, Direction::Forward, array.shared),
            array.shared.storage matches Some(storage) && storage_side_error(
                *self,
                Direction::Forward,
                storage,
            ) is None,
    {
        self.lemma_covers();
        self.lemma_registered();
    }

    proof fn lemma_own_buffers<R: FftReal>(&self, workspace: R2cInPlaceWorkspace<R, N, M>)
        requires
            self.wf(),
            self.real_lens.fft_scratch == self.lens.fft_scratch,
            fresh_r2c_buffers(*self, workspace),
        ensures
            in_place_buffer_error(*self, workspace) is None,
    {
    }
}

} // verus!
