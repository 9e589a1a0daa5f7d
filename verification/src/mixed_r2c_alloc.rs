//! Buffers and arrays of a mixed real-to-complex plan.

use vstd::arithmetic::div_mod::lemma_fundamental_div_mod_converse;
use vstd::prelude::*;

use crate::array::ManyPencilArray;
use crate::array::PencilArray;
use crate::error::FftError;
use crate::error::MixedError;
use crate::layout::lemma_product_split;
use crate::layout::product;
use crate::layout::Direction;
use crate::layout::ExtraShape;
use crate::layout::Pencil;
use crate::layout::R2cState;
use crate::local::LocalR2cPlan;
use crate::mixed_r2c::complex_lens_of;
use crate::mixed_r2c::lines_error;
use crate::mixed_r2c::mixed_len_error;
use crate::mixed_r2c::mixed_r2c_error;
use crate::mixed_r2c::mixed_r2c_in_place_error;
use crate::mixed_r2c::mixed_storage_error;
use crate::mixed_r2c::phase_error;
use crate::mixed_r2c::real_buffers_error;
use crate::mixed_r2c::MixedBuffers;
use crate::mixed_r2c::MixedR2cCore;
use crate::mixed_r2c::MixedR2cInPlaceArray;
use crate::mixed_r2c::MixedR2cInPlaceWorkspace;
use crate::mixed_r2c::MixedR2cWorkspace;
use crate::r2c_alloc::allocate_optional_in;
use crate::r2c_alloc::optional_buffers;
use crate::registry::all_distinct;
use crate::registry::exact_pencil_list;
use crate::registry::has_layout;
use crate::registry::inputs_of;
use crate::registry::is_empty_room;
use crate::registry::largest_local_len;
use crate::registry::lemma_distinct_layouts;
use crate::registry::outputs_of;
use crate::registry::room_for;
use crate::registry::room_where;
use crate::scalar::Complex;
use crate::scalar::FftReal;
use crate::shared::allocate_shared_in;
use crate::shared::fresh_shared;
use crate::shared::lemma_distinct_largest;
use crate::shared::real_side;
use crate::shared::shared_error;
use crate::shared::shared_room;
use crate::shared::shared_wf;
use crate::storage::law_storage_suffices;
use crate::storage::real_need;
use crate::storage::pairs_fit;
use crate::storage::storage_needs;
use crate::sweep::larger;
use crate::sweep::max_len;
use crate::workspace::all_are;
use crate::workspace::allocation_error;
use crate::workspace::copy_pencils;
use crate::workspace::filled_array;
use crate::workspace::freshly_registered;
use crate::workspace::initialized_vec_in;
use crate::workspace::lens_error;
use crate::workspace::no_room;
use crate::workspace::registered_error;
use crate::workspace::some_allocation_error;
use crate::workspace::zero_complex;
use crate::workspace::TransposeWorkspace;

verus! {

/// Buffers that were just allocated for a plan.
pub open spec fn fresh_mixed_buffers<R: FftReal, const N: usize, const M: usize>(
    core: MixedR2cCore<N, M>,
    buffers: MixedBuffers<R>,
) -> bool {
    let zero = R::zero_bits();
    let pair = [R::zero_bits(), R::zero_bits()];
    let real_len = core.plan().real_len;
    let complex_len = core.plan().complex_len;
    &&& buffers.transpose.filled(core.lens.send, core.lens.receive, pair)
    &&& optional_buffers(
        buffers.real_transpose,
        core.boundary > 0,
        core.real_lens.send,
        core.real_lens.receive,
        zero,
    )
    &&& all_are(buffers.embedding_line@, core.embedding_len as int, pair)
    &&& all_are(buffers.fft_scratch@, core.lens.fft_scratch as int, pair)
    &&& all_are(buffers.real_source_line@, real_len as int, zero)
    &&& all_are(buffers.real_line@, larger(core.real_line_len, real_len) as int, zero)
    &&& all_are(buffers.complex_source_line@, complex_len as int, pair)
    &&& all_are(buffers.complex_line@, larger(core.complex_line_len, complex_len) as int, pair)
    &&& all_are(buffers.real_strided_line@, core.real_line_len as int, zero)
    &&& all_are(buffers.complex_strided_line@, core.complex_line_len as int, pair)
}

/// A workspace that was just allocated for a plan.
pub open spec fn fresh_mixed_r2c_workspace<R: FftReal, const N: usize, const M: usize>(
    core: MixedR2cCore<N, M>,
    workspace: MixedR2cWorkspace<R, N, M>,
) -> bool {
    &&& workspace.core == core.id
    &&& freshly_registered(
        workspace.intermediate,
        core.complex_pencils@,
        core.extra_shape,
        [R::zero_bits(), R::zero_bits()],
    )
    &&& match workspace.real_intermediate {
        Some(values) => core.boundary > 0 && freshly_registered(
            values,
            core.real_pencils@,
            core.extra_shape,
            R::zero_bits(),
        ),
        None => core.boundary == 0,
    }
    &&& fresh_mixed_buffers(core, workspace.buffers)
}

/// An in-place workspace that was just allocated for a plan.
pub open spec fn fresh_mixed_r2c_in_place<R: FftReal, const N: usize, const M: usize>(
    core: MixedR2cCore<N, M>,
    workspace: MixedR2cInPlaceWorkspace<R, N, M>,
) -> bool {
    workspace.core == core.id && fresh_mixed_buffers(core, workspace.buffers)
}

/// An in-place array that was just allocated for a plan.
pub open spec fn fresh_mixed_r2c_array<R: FftReal, const N: usize, const M: usize>(
    core: MixedR2cCore<N, M>,
    array: MixedR2cInPlaceArray<R, N, M>,
) -> bool {
    &&& array.core == core.id
    &&& array.state == R2cState::RealInput
    &&& fresh_shared(array.shared, core.stages@, core.boundary, core.extra_shape)
    &&& shared_wf(array.shared)
}

proof fn lemma_own_list<const N: usize, const M: usize>(pencils: Seq<Pencil<N, M>>)
    requires
        pencils.len() > 0,
        all_distinct(pencils),
    ensures
        exact_pencil_list(pencils, pencils),
{
    assert forall|i: int| 0 <= i < pencils.len() implies has_layout(
        pencils,
        #[trigger] pencils[i],
    ) by {
        assert(pencils[i].spec_same_layout(&pencils[i]));
    }
}

/// An array that was just made for some layouts serves a plan that needs exactly those.
proof fn lemma_fresh_accepted<T, const N: usize, const M: usize>(
    array: ManyPencilArray<T, N, M>,
    pencils: Seq<Pencil<N, M>>,
    extra_shape: ExtraShape,
    value: T,
)
    requires
        pencils.len() > 0,
        all_distinct(pencils),
        freshly_registered(array, pencils, extra_shape, value),
    ensures
        registered_error(array, pencils) is None,
{
    lemma_own_list(pencils);
    let stored: usize = array.storage.len();
    assert(array.storage@.len() == stored);
    assert(array.pencils@[0].spec_same_layout(&array.pencils@[0]));
}

/// Answers to the requests for the buffers of a plan: each is an empty list with room, or nothing.
pub struct MixedR2cRooms<R: FftReal> {
    /// What is sent of real values.
    pub real_send: Option<Vec<R>>,
    /// What is received of real values.
    pub real_receive: Option<Vec<R>>,
    /// What is sent of complex values.
    pub send: Option<Vec<Complex<R>>>,
    /// What is received of complex values.
    pub receive: Option<Vec<Complex<R>>>,
    /// The embedding line.
    pub embedding: Option<Vec<Complex<R>>>,
    /// The scratch buffer.
    pub scratch: Option<Vec<Complex<R>>>,
    /// A real line that the boundary reads.
    pub real_source: Option<Vec<R>>,
    /// A real line that a kernel writes.
    pub real_line: Option<Vec<R>>,
    /// A complex line that the boundary reads.
    pub complex_source: Option<Vec<Complex<R>>>,
    /// A complex line that a kernel writes.
    pub complex_line: Option<Vec<Complex<R>>>,
    /// The strided real line.
    pub real_strided: Option<Vec<R>>,
    /// The strided complex line.
    pub complex_strided: Option<Vec<Complex<R>>>,
}

impl<R: FftReal> MixedR2cRooms<R> {
    /// The lists hold nothing yet.
    pub open spec fn wf(&self) -> bool {
        &&& is_empty_room(self.real_send)
        &&& is_empty_room(self.real_receive)
        &&& is_empty_room(self.send)
        &&& is_empty_room(self.receive)
        &&& is_empty_room(self.embedding)
        &&& is_empty_room(self.scratch)
        &&& is_empty_room(self.real_source)
        &&& is_empty_room(self.real_line)
        &&& is_empty_room(self.complex_source)
        &&& is_empty_room(self.complex_line)
        &&& is_empty_room(self.real_strided)
        &&& is_empty_room(self.complex_strided)
    }
}

impl<const N: usize, const M: usize> MixedR2cCore<N, M> {
    /// Elements of the buffers that an execution needs, each of which may fail to be allocated.
    pub open spec fn buffer_lens(&self) -> Seq<int> {
        seq![
            largest_local_len(self.complex_pencils@) * self.extra_shape.element_count,
            largest_local_len(self.real_pencils@) * self.extra_shape.element_count,
            self.lens.send as int,
            self.lens.receive as int,
            self.real_lens.send as int,
            self.real_lens.receive as int,
            self.embedding_len as int,
            self.lens.fft_scratch as int,
            self.plan().real_len as int,
            larger(self.real_line_len, self.plan().real_len) as int,
            self.plan().complex_len as int,
            larger(self.complex_line_len, self.plan().complex_len) as int,
            self.real_line_len as int,
            self.complex_line_len as int,
        ]
    }

    /// Why buffers could not be allocated.
    pub open spec fn buffers_refused(&self, error: MixedError) -> bool {
        error matches MixedError::Fft(fault) && some_allocation_error(fault, self.buffer_lens())
    }

    proof fn lemma_registered(&self)
        requires
            self.wf(),
        ensures
            self.complex_pencils@.len() > 0,
            all_distinct(self.complex_pencils@),
            self.real_pencils@.len() > 0,
            all_distinct(self.real_pencils@),
            self.real_pencils@[0] == self.spec_input(),
    {
        let outputs = outputs_of(self.stages@.skip(self.boundary as int));
        let inputs = inputs_of(self.stages@.take(self.boundary + 1));
        lemma_distinct_layouts(outputs);
        lemma_distinct_layouts(inputs);
        assert(inputs[0] == self.stages@[0].input);
    }

    /// Why the buffers cannot be allocated: the first one that there is no room for.
    pub open spec fn buffers_fault<R: FftReal>(&self, rooms: MixedR2cRooms<R>) -> Option<FftError> {
        if self.boundary > 0 && rooms.real_send is None {
            no_room(self.real_lens.send)
        } else if self.boundary > 0 && rooms.real_receive is None {
            no_room(self.real_lens.receive)
        } else if rooms.send is None {
            no_room(self.lens.send)
        } else if rooms.receive is None {
            no_room(self.lens.receive)
        } else if rooms.embedding is None {
            no_room(self.embedding_len)
        } else if rooms.scratch is None {
            no_room(self.lens.fft_scratch)
        } else if rooms.real_source is None {
            no_room(self.plan().real_len)
        } else if rooms.real_line is None {
            no_room(larger(self.real_line_len, self.plan().real_len))
        } else if rooms.complex_source is None {
            no_room(self.plan().complex_len)
        } else if rooms.complex_line is None {
            no_room(larger(self.complex_line_len, self.plan().complex_len))
        } else if rooms.real_strided is None {
            no_room(self.real_line_len)
        } else if rooms.complex_strided is None {
            no_room(self.complex_line_len)
        } else {
            None
        }
    }

    /// Fills the room that there is for the buffers of exchanges and kernels.
    pub fn allocate_buffers_in<R: FftReal>(&self, rooms: MixedR2cRooms<R>) -> (result: Result<
        MixedBuffers<R>,
        MixedError,
    >)
        requires
            self.wf(),
            rooms.wf(),
        ensures
            match self.buffers_fault(rooms) {
                None => result matches Ok(buffers) && fresh_mixed_buffers(*self, buffers),
                Some(fault) => result == Err::<MixedBuffers<R>, MixedError>(
                    MixedError::Fft(fault),
                ),
            },
    {
        let plan: LocalR2cPlan = self.boundary_plan();
        let real_line_len: usize = max_len(self.real_line_len, plan.real_len);
        let complex_line_len: usize = max_len(self.complex_line_len, plan.complex_len);
        let pair: Complex<R> = zero_complex::<R>();
        let zero: R = R::zero();
        let real_transpose = match allocate_optional_in(
            self.boundary > 0,
            rooms.real_send,
            rooms.real_receive,
            self.real_lens.send,
            self.real_lens.receive,
            zero,
        ) {
            Ok(elements) => elements,
            Err(fault) => {
                return Err(MixedError::Fft(fault));
            },
        };
        let transpose = match TransposeWorkspace::allocate_in(
            rooms.send,
            rooms.receive,
            self.lens.send,
            self.lens.receive,
            pair,
        ) {
            Ok(elements) => elements,
            Err(fault) => {
                return Err(MixedError::Fft(fault));
            },
        };
        let embedding_line = match initialized_vec_in(rooms.embedding, self.embedding_len, pair) {
            Ok(elements) => elements,
            Err(fault) => {
                return Err(MixedError::Fft(fault));
            },
        };
        let fft_scratch = match initialized_vec_in(rooms.scratch, self.lens.fft_scratch, pair) {
            Ok(elements) => elements,
            Err(fault) => {
                return Err(MixedError::Fft(fault));
            },
        };
        let real_source_line = match initialized_vec_in(rooms.real_source, plan.real_len, zero) {
            Ok(elements) => elements,
            Err(fault) => {
                return Err(MixedError::Fft(fault));
            },
        };
        let real_line = match initialized_vec_in(rooms.real_line, real_line_len, zero) {
            Ok(elements) => elements,
            Err(fault) => {
                return Err(MixedError::Fft(fault));
            },
        };
        let complex_source_line = match initialized_vec_in(rooms.complex_source, plan.complex_len, pair) {
            Ok(elements) => elements,
            Err(fault) => {
                return Err(MixedError::Fft(fault));
            },
        };
        let complex_line = match initialized_vec_in(rooms.complex_line, complex_line_len, pair) {
            Ok(elements) => elements,
            Err(fault) => {
                return Err(MixedError::Fft(fault));
            },
        };
        let real_strided_line = match initialized_vec_in(rooms.real_strided, self.real_line_len, zero) {
            Ok(elements) => elements,
            Err(fault) => {
                return Err(MixedError::Fft(fault));
            },
        };
        let complex_strided_line = match initialized_vec_in(
            rooms.complex_strided,
            self.complex_line_len,
            pair,
        ) {
            Ok(elements) => elements,
            Err(fault) => {
                return Err(MixedError::Fft(fault));
            },
        };
        Ok(
            MixedBuffers {
                transpose,
                real_transpose,
                embedding_line,
                fft_scratch,
                real_source_line,
                real_line,
                complex_source_line,
                complex_line,
                real_strided_line,
                complex_strided_line,
            },
        )
    }

    /// Allocates the buffers of exchanges and kernels. Whether there is room rests on the machine;
    /// [`MixedR2cCore::allocate_buffers_in`] says what follows for each answer.
    fn allocate_buffers<R: FftReal>(&self) -> (result: Result<MixedBuffers<R>, MixedError>)
        requires
            self.wf(),
        ensures
            match result {
                Ok(buffers) => fresh_mixed_buffers(*self, buffers),
                Err(error) => self.buffers_refused(error),
            },
    {
        let ghost lens = self.buffer_lens();
        let plan: LocalR2cPlan = self.boundary_plan();
        let rooms = MixedR2cRooms::<R> {
            real_send: room_where(self.boundary > 0, self.real_lens.send),
            real_receive: room_where(self.boundary > 0, self.real_lens.receive),
            send: room_for(self.lens.send),
            receive: room_for(self.lens.receive),
            embedding: room_for(self.embedding_len),
            scratch: room_for(self.lens.fft_scratch),
            real_source: room_for(plan.real_len),
            real_line: room_for(max_len(self.real_line_len, plan.real_len)),
            complex_source: room_for(plan.complex_len),
            complex_line: room_for(max_len(self.complex_line_len, plan.complex_len)),
            real_strided: room_for(self.real_line_len),
            complex_strided: room_for(self.complex_line_len),
        };
        proof {
            assert(lens[2] == self.lens.send && lens[3] == self.lens.receive);
            assert(lens[4] == self.real_lens.send && lens[5] == self.real_lens.receive);
            assert(lens[6] == self.embedding_len && lens[7] == self.lens.fft_scratch);
            assert(lens[8] == self.plan().real_len && lens[10] == self.plan().complex_len);
            assert(lens[9] == larger(self.real_line_len, self.plan().real_len));
            assert(lens[11] == larger(self.complex_line_len, self.plan().complex_len));
            assert(lens[12] == self.real_line_len && lens[13] == self.complex_line_len);
        }
        self.allocate_buffers_in(rooms)
    }

    /// Allocates the buffers of an out-of-place execution.
    pub fn allocate_workspace<R: FftReal>(&self) -> (result: Result<
        MixedR2cWorkspace<R, N, M>,
        MixedError,
    >)
        requires
            self.wf(),
        ensures
            match result {
                Ok(workspace) => fresh_mixed_r2c_workspace(*self, workspace),
                Err(error) => self.buffers_refused(error),
            },
    {
        proof {
            self.lemma_registered();
        }
        let ghost lens = self.buffer_lens();
        let intermediate = match ManyPencilArray::from_elem(
            &self.complex_pencils,
            &self.extra_shape,
            zero_complex::<R>(),
        ) {
            Ok(elements) => elements,
            Err(fault) => {
                assert(allocation_error(fault, lens[0]));
                return Err(MixedError::Fft(fault));
            },
        };
        let real_intermediate = if self.boundary == 0 {
            None
        } else {
            let values = match ManyPencilArray::from_elem(&self.real_pencils, &self.extra_shape, R::zero()) {
                Ok(elements) => elements,
                Err(fault) => {
                    assert(allocation_error(fault, lens[1]));
                    return Err(MixedError::Fft(fault));
                },
            };
            Some(values)
        };
        match self.allocate_buffers::<R>() {
            Ok(buffers) => Ok(
                MixedR2cWorkspace { core: self.id, intermediate, real_intermediate, buffers },
            ),
            Err(error) => Err(error),
        }
    }

    /// Allocates the buffers of an in-place execution.
    pub fn allocate_in_place_workspace<R: FftReal>(&self) -> (result: Result<
        MixedR2cInPlaceWorkspace<R, N, M>,
        MixedError,
    >)
        requires
            self.wf(),
        ensures
            match result {
                Ok(workspace) => fresh_mixed_r2c_in_place(*self, workspace),
                Err(error) => self.buffers_refused(error),
            },
    {
        match self.allocate_buffers::<R>() {
            Ok(buffers) => Ok(MixedR2cInPlaceWorkspace { core: self.id, buffers }),
            Err(error) => Err(error),
        }
    }

    /// Why an in-place array could not be allocated.
    pub open spec fn array_refused<R: FftReal>(&self, error: MixedError) -> bool {
        error matches MixedError::Fft(fault) && shared_error::<R, N, M>(
            fault,
            self.stages@,
            self.boundary,
            self.extra_shape,
        )
    }

    /// Makes an array for in-place executions in the room for its values.
    pub fn allocate_in_place_in<R: FftReal>(&self, room: Option<Vec<Complex<R>>>) -> (result: Result<
        MixedR2cInPlaceArray<R, N, M>,
        MixedError,
    >)
        requires
            self.wf(),
            is_empty_room(room),
        ensures
            match storage_needs(
                self.stages@,
                Some(self.boundary),
                self.extra_shape.element_count as int,
                R::bytes() as int,
            ) {
                None => result == Err::<MixedR2cInPlaceArray<R, N, M>, MixedError>(
                    MixedError::Fft(FftError::PreparationFailed),
                ),
                Some(needs) => match room {
                    None => result == Err::<MixedR2cInPlaceArray<R, N, M>, MixedError>(
                        MixedError::Fft(
                            FftError::AllocationFailed { required: needs.complex_capacity },
                        ),
                    ),
                    Some(_) => result matches Ok(array) && fresh_mixed_r2c_array(*self, array),
                },
            },
    {
        match allocate_shared_in(
            room,
            &self.stages,
            self.boundary,
            &self.extra_shape,
            copy_pencils(&self.real_pencils),
            copy_pencils(&self.complex_pencils),
        ) {
            Ok(shared) => Ok(
                MixedR2cInPlaceArray { core: self.id, shared, state: R2cState::RealInput },
            ),
            Err(fault) => Err(MixedError::Fft(fault)),
        }
    }

    /// Allocates an array for in-place executions. Whether there is room for it rests on the
    /// machine; `allocate_in_place_in` says what follows for each answer.
    pub fn allocate_in_place<R: FftReal>(&self) -> (result: Result<
        MixedR2cInPlaceArray<R, N, M>,
        MixedError,
    >)
        requires
            self.wf(),
        ensures
            match result {
                Ok(array) => fresh_mixed_r2c_array(*self, array),
                Err(error) => self.array_refused::<R>(error),
            },
    {
        let room: Option<Vec<Complex<R>>> = shared_room(
            &self.stages,
            self.boundary,
            &self.extra_shape,
        );
        self.allocate_in_place_in(room)
    }

    /// A plan accepts the arrays and the workspace that it allocated itself.
    pub proof fn law_own_workspace_accepted<R: FftReal, S, U>(
        &self,
        direction: Direction,
        source: PencilArray<S, N, M>,
        destination: PencilArray<U, N, M>,
        workspace: MixedR2cWorkspace<R, N, M>,
        from: S,
        to: U,
    )
        requires
            self.wf(),
            filled_array(source, self.source_pencil(direction), self.extra_shape, from),
            filled_array(destination, self.destination_pencil(direction), self.extra_shape, to),
            fresh_mixed_r2c_workspace(*self, workspace),
        ensures
            mixed_r2c_error(*self, direction, source, destination, workspace) is None,
    {
        self.lemma_registered();
        self.lemma_own_buffers(workspace.buffers);
        lemma_fresh_accepted(
            workspace.intermediate,
            self.complex_pencils@,
            self.extra_shape,
            [R::zero_bits(), R::zero_bits()],
        );
        if let Some(values) = workspace.real_intermediate {
            lemma_fresh_accepted(values, self.real_pencils@, self.extra_shape, R::zero_bits());
        }
    }

    /// Boundary lines lie whole on this rank, in lines of the boundary kernel's length.
    pub open spec fn whole_lines(&self) -> bool {
        let stage = self.stages@[self.boundary as int];
        stage.input.local_shape@[stage.axis as int] == self.plan().real_len
    }

    /// A plan whose boundary lines lie whole on this rank accepts the in-place array and workspace
    /// that it allocated itself, if the allocator gave an allocation that can be read as either
    /// kind of value.
    pub proof fn law_own_array_accepted<R: FftReal>(
        &self,
        array: MixedR2cInPlaceArray<R, N, M>,
        workspace: MixedR2cInPlaceWorkspace<R, N, M>,
        capacity: usize,
    )
        requires
            self.wf(),
            fresh_mixed_r2c_array(*self, array),
            fresh_mixed_r2c_in_place(*self, workspace),
            self.whole_lines(),
            pairs_fit::<R>(
                    capacity as int,
                array.shared.storage_bytes as int,
            ),
        ensures
            mixed_r2c_in_place_error(*self, Direction::Forward, array, workspace, capacity) is None,
    {
        self.lemma_own_buffers(workspace.buffers);
        self.lemma_own_sides(array);
        self.lemma_own_phase::<R>();
        self.lemma_own_len();
        let values = real_side(array.shared);
        let stored: usize = values.storage.len();
        assert(values.storage@.len() == stored);
        assert(mixed_len_error(*self, Direction::Forward, array.shared, capacity) is None);
    }

    proof fn lemma_own_phase<R: FftReal>(&self)
        requires
            self.wf(),
            self.whole_lines(),
            storage_needs(
                self.stages@,
                Some(self.boundary),
                self.extra_shape.element_count as int,
                R::bytes() as int,
            ) is Some,
        ensures
            phase_error(
                *self,
                Direction::Forward,
                storage_needs(
                    self.stages@,
                    Some(self.boundary),
                    self.extra_shape.element_count as int,
                    R::bytes() as int,
                )->0.complex_capacity as int,
            ) is None,
    {
        let extra = self.extra_shape.element_count as int;
        let stage = self.stages@[self.boundary as int];
        let axis = stage.axis as int;
        let needs = storage_needs(self.stages@, Some(self.boundary), extra, R::bytes() as int)->0;
        R::lemma_bytes();
        law_storage_suffices(self.stages@, self.boundary, extra, R::bytes() as int);
        assert(stage.wf());
        let p = stage.input.axis_position(axis)->0;
        let step = stage.input.stride_behind(p) as int;
        let line = self.plan().real_len as int;
        let half = self.plan().complex_len as int;
        let local = stage.input.local_len as int;
        lemma_product_split(stage.input.memory_extents(), p);
        let outer = product(stage.input.memory_extents().take(p)) as int;
        let groups = outer * extra;
        assert(local == outer * line * step);
        assert(local == (outer * step) * line) by (nonlinear_arith)
            requires
                local == outer * line * step,
        ;
        lemma_fundamental_div_mod_converse(local, line, outer * step, 0);
        let rows = (outer * step) * extra;
        assert(rows == groups * step) by (nonlinear_arith)
            requires
                rows == (outer * step) * extra,
                groups == outer * extra,
        ;
        assert(groups * line * step == local * extra) by (nonlinear_arith)
            requires
                local == outer * line * step,
                groups == outer * extra,
        ;
        assert(groups * half * step <= groups * line * step) by (nonlinear_arith)
            requires
                half <= line,
                0 <= groups,
                0 <= step,
        ;
        assert(rows <= rows * line && rows * line == local * extra) by (nonlinear_arith)
            requires
                line >= 1,
                rows == groups * step,
                0 <= groups,
                0 <= step,
                groups * line * step == local * extra,
        ;
        if step > 1 {
            lemma_fundamental_div_mod_converse(rows, step, groups, 0);
        }
    }

    proof fn lemma_own_sides<R: FftReal>(&self, array: MixedR2cInPlaceArray<R, N, M>)
        requires
            self.wf(),
            fresh_mixed_r2c_array(*self, array),
        ensures
            mixed_storage_error(*self, Direction::Forward, array.shared) is None,
    {
        self.lemma_registered();
        let values = real_side(array.shared);
        lemma_fresh_accepted(values, self.real_pencils@, self.extra_shape, R::zero_bits());
        lemma_own_list(self.complex_pencils@);
        self.lemma_own_len();
        let stored: usize = values.storage.len();
        assert(values.storage@.len() == stored);
    }

    proof fn lemma_own_len(&self)
        requires
            self.wf(),
        ensures
            real_need(self.stages@, self.boundary as int, self.extra_shape.element_count as int)
                == largest_local_len(self.real_pencils@) * self.extra_shape.element_count,
    {
        let inputs = inputs_of(self.stages@.take(self.boundary + 1));
        assert forall|i: int| 0 <= i < inputs.len() implies (#[trigger] inputs[i]).wf() by {
            assert(inputs[i] == self.stages@[i].input);
            assert(self.stages@[i].wf());
        }
        lemma_distinct_largest(inputs);
    }

    proof fn lemma_own_buffers<R: FftReal>(&self, buffers: MixedBuffers<R>)
        requires
            self.wf(),
            fresh_mixed_buffers(*self, buffers),
        ensures
            lens_error(complex_lens_of(buffers), self.lens) is None,
            real_buffers_error(*self, buffers) is None,
            lines_error(*self, buffers) is None,
    {
    }
}

} // verus!
