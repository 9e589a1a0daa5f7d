//! What an execution of a real-to-complex plan in place and its way back leave of the values.

use vstd::prelude::*;

use crate::array::resized;
use crate::array::ManyPencilArray;
use crate::carrier::Load;
use crate::convert::complex_handed_over;
use crate::convert::complex_installed;
use crate::convert::filled_up;
use crate::convert::first_layout;
use crate::convert::forward_settled;
use crate::convert::forward_verdict;
use crate::convert::handoff_len;
use crate::convert::handoff_rows;
use crate::convert::real_handed_over;
use crate::convert::real_taken_on;
use crate::convert::recast_of;
use crate::convert::reverse_len;
use crate::convert::reverse_settled;
use crate::convert::Detached;
use crate::crew::all_done;
use crate::crew::Crew;
use crate::crew::InTurn;
use crate::crew_r2c_ip::shared_line_buffers;
use crate::crew_r2c_ip::shared_load;
use crate::crew_r2c_ip::R2cInPlaceForwardCrew;
use crate::crew_r2c_ip::R2cInPlaceReverseCrew;
use crate::crew_r2c_ip::R2cInPlaceTask;
use crate::error::ArrayError;
use crate::error::FftError;
use crate::error::LocalC2cError;
use crate::error::LocalR2cError;
use crate::error::R2cError;
use crate::handoff::lanes;
use crate::handoff::Boundary;
use crate::handoff::LineBuffers;
use crate::handoff::SharedStorage;
use crate::inspect::Inspector;
use crate::kernels::ComplexStation;
use crate::laws::undoes;
use crate::layout::Direction;
use crate::round_half::clearing_keeps;
use crate::round_half::law_tail_station_undone;
use crate::round_half::lies_alike;
use crate::round_shared::clearing_stays;
use crate::round_shared::comes_back;
use crate::round_shared::handoff_makes;
use crate::round_shared::hands_home;
use crate::round_shared::hands_there;
use crate::round_shared::holds_complex;
use crate::round_shared::holds_real;
use crate::round_shared::lands_in;
use crate::round_shared::law_handoff_undone;
use crate::round_shared::lemma_complex_worked;
use crate::round_shared::lemma_handed_home;
use crate::round_shared::lemma_handed_there;
use crate::round_shared::lemma_shared_exchanged;
use crate::round_shared::lies_in;
use crate::round_shared::lines_match;
use crate::round_shared::shared_values;
use crate::round_shared::shelved;
use crate::round_shared::stands;
use crate::round_trip::active_values;
use crate::round_trip::exchanges_undone;
use crate::round_trip::kernels_undone;
use crate::round_trip::lemma_applied_maps;
use crate::round_trip::lemma_one_done;
use crate::round_trip::lemma_two_done;
use crate::round_trip::maps;
use crate::run::steps_run;
use crate::scalar::Complex;
use crate::scalar::FftReal;
use crate::schedule::arrive_step;
use crate::schedule::endpoint_step;
use crate::schedule::exchange_step;
use crate::schedule::kernel_step;
use crate::schedule::Itinerary;
use crate::schedule::Mode;
use crate::schedule::Slot;
use crate::schedule::Step;
use crate::schedule::Work;
use crate::shared::complex_side;
use crate::shared::real_side;
use crate::transition::Passage;
use crate::walk::kept_home;
use crate::walk::kept_there;
use crate::walk::law_way_back;
use crate::walk::lemma_all_done_split;
use crate::walk::lemma_kept_home;
use crate::walk::lemma_kept_there;
use crate::walk::lemma_pieces_all_done;
use crate::walk::walked;

verus! {

/// The layout behind the boundary is the first of those of the complex side that wait.
pub open spec fn enters_first<R, const N: usize, const M: usize>(
    boundary: Boundary<N, M>,
    shared: SharedStorage<R, N, M>,
) -> bool {
    shared.complex_pencils matches Some(waiting) && waiting@.len() > 0
        && waiting@[0].spec_same_layout(&boundary.stage.output)
}

/// How the allocation stands in front of move `index` of a forward execution.
pub open spec fn r2c_stands<R, const N: usize, const M: usize>(
    boundary: Boundary<N, M>,
    edge: int,
    index: int,
    shared: SharedStorage<R, N, M>,
) -> bool {
    stands(boundary, edge, index, shared) && (index <= 2 * edge ==> enters_first(boundary, shared))
}

/// What a handoff to the complex side that succeeds makes of the active values.
pub proof fn lemma_crossed_there<R: FftReal, FX: Fn(&[R], usize) -> Result<Vec<Complex<R>>, LocalR2cError>, const N: usize, const M: usize>(
    kernel: FX,
    boundary: Boundary<N, M>,
    buffers: LineBuffers,
    before: SharedStorage<R, N, M>,
    after: SharedStorage<R, N, M>,
)
    requires
        boundary.wf(),
        lines_match(boundary),
        shelved(boundary, before),
        holds_real(before),
        enters_first(boundary, before),
        lies_in(real_side(before), boundary.stage.input),
        real_handed_over::<R, FX, N, M>(kernel, boundary, buffers, before, after, Ok(())),
    ensures
        shelved(boundary, after),
        holds_complex(after),
        lies_in(complex_side(after), boundary.stage.output),
        hands_there::<R, LocalR2cError, FX>(
            kernel,
            boundary.plan,
            handoff_rows(boundary),
            boundary.real_stride()->0 as int,
            active_values(real_side(before)),
            active_values(complex_side(after)),
        ),
{
    let source = real_side(before);
    let needed = 2 * handoff_len(boundary, before)->0;
    let detached = Detached {
        source: source.pencils,
        destination: before.complex_pencils->0,
        active: 0,
        extra_shape: source.extra_shape,
    };
    let recast = choose|recast: Result<Vec<Complex<R>>, Vec<R>>|
        {
            &&& recast_of(resized(source.storage@, needed as nat, R::zero_bits()), recast)
            &&& #[trigger] forward_settled::<R, FX, N, M>(
                kernel,
                boundary,
                buffers,
                detached,
                recast,
                after,
                Ok(()),
            )
        };
    let lines = recast->Ok_0;
    let (converted, installed) = choose|
        converted: Seq<Complex<R>>,
        installed: Option<ArrayError>,
    |
        {
            &&& converted.len() == lines@.len()
            &&& #[trigger] complex_installed(
                detached.destination,
                detached.active,
                detached.extra_shape,
                converted,
                after,
                installed,
            )
            &&& forward_verdict::<R, FX, N, M>(
                kernel,
                boundary,
                buffers,
                after.real_storage_len as int,
                lines@,
                converted,
                installed,
                Ok(()),
            )
        };
    assert(installed is None);
    let stride = boundary.real_stride()->0 as int;
    let rows = handoff_rows(boundary);
    assert(rows % lanes(stride) == 0);
    lemma_handed_there::<R, LocalR2cError, FX, N, M>(
        kernel,
        boundary,
        rows,
        stride,
        0,
        before,
        after,
    );
}

/// What a handoff to the real side that succeeds makes of the active values.
pub proof fn lemma_crossed_home<R: FftReal, GX: Fn(&[Complex<R>], usize) -> Result<Vec<R>, LocalR2cError>, const N: usize, const M: usize>(
    kernel: GX,
    boundary: Boundary<N, M>,
    buffers: LineBuffers,
    before: SharedStorage<R, N, M>,
    after: SharedStorage<R, N, M>,
)
    requires
        boundary.wf(),
        lines_match(boundary),
        boundary.complex_stride() == boundary.real_stride(),
        shelved(boundary, before),
        holds_complex(before),
        lies_in(complex_side(before), boundary.stage.output),
        complex_handed_over::<R, GX, N, M>(kernel, boundary, buffers, before, after, Ok(())),
    ensures
        holds_real(after),
        hands_home::<R, LocalR2cError, GX>(
            kernel,
            boundary.plan,
            handoff_rows(boundary),
            boundary.real_stride()->0 as int,
            active_values(complex_side(before)),
            active_values(real_side(after)),
        ),
{
    let source = complex_side(before);
    let needed = reverse_len(boundary, before);
    let lines = filled_up(source.storage@, needed as nat);
    let active = choose|active: usize|
        {
            &&& #[trigger] first_layout(
                before.real_pencils->0@,
                boundary.stage.input,
                active as int,
            )
            &&& reverse_settled::<R, GX, N, M>(
                kernel,
                boundary,
                buffers,
                (Detached {
                    source: source.pencils,
                    destination: before.real_pencils->0,
                    active,
                    extra_shape: source.extra_shape,
                }),
                source.active->0,
                lines,
                after,
                Ok(()),
            )
        };
    let detached = Detached {
        source: source.pencils,
        destination: before.real_pencils->0,
        active,
        extra_shape: source.extra_shape,
    };
    assert(exists|converted: Seq<R>, installed: Option<ArrayError>| #[trigger]
        real_taken_on(detached, converted, after, installed) && installed is None);
    let stride = boundary.real_stride()->0 as int;
    let rows = handoff_rows(boundary);
    assert(rows % lanes(stride) == 0);
    lemma_handed_home::<R, LocalR2cError, GX, N, M>(
        kernel,
        boundary,
        rows,
        stride,
        real_side(after).active->0 as int,
        before,
        after,
    );
}

/// What a forward execution makes of the values at a stage; the step of its kernel tells how.
pub proof fn lemma_stage_there<R: FftReal, FX: Fn(&[R], usize) -> Result<Vec<Complex<R>>, LocalR2cError>, FC: Fn(&[Complex<R>], usize) -> Result<Vec<Complex<R>>, LocalC2cError>, XR: Fn(usize, Passage, Load<R, N, M>) -> (Load<R, N, M>, Result<(), FftError>), XC: Fn(usize, Passage, Load<Complex<R>, N, M>) -> (Load<Complex<R>, N, M>, Result<(), FftError>), const N: usize, const M: usize>(
    crew: R2cInPlaceForwardCrew<FX, FC, XR, XC, N, M>,
    route: Itinerary,
    eager: Seq<bool>,
    stage: int,
    before: R2cInPlaceTask<R, N, M>,
    after: R2cInPlaceTask<R, N, M>,
) -> (step: Step)
    requires
        crew.core.wf(),
        lines_match(crew.core.spec_boundary()),
        route == crew.core.itinerary(),
        route.wf(),
        route.stages == crew.core.stages@.len(),
        0 <= stage <= route.last(),
        r2c_stands(crew.core.spec_boundary(), route.boundary as int, 2 * stage, before.0.shared),
        all_done::<R2cInPlaceTask<R, N, M>, R2cError, R2cInPlaceForwardCrew<FX, FC, XR, XC, N, M>>(
            crew,
            route.stage_there(Mode::InPlace, stage, eager),
            before,
            after,
        ),
    ensures
        r2c_stands(crew.core.spec_boundary(), route.boundary as int, 2 * stage + 1, after.0.shared),
        stage < route.boundary ==> after.0.shared == before.0.shared,
        stage == route.boundary ==> hands_there::<R, LocalR2cError, FX>(
            *crew.crossing,
            crew.core.plan(),
            handoff_rows(crew.core.spec_boundary()),
            crew.core.boundary_stride()->0 as int,
            active_values(real_side(before.0.shared)),
            active_values(complex_side(after.0.shared)),
        ),
        stage > route.boundary ==> step.work == Work::Kernel(stage as usize) && maps::<
            Complex<R>,
            Complex<R>,
            R2cError,
            ComplexStation<FC, N, M>,
        >(
            crew.core.spec_tail_station(Direction::Forward, step, &crew.kernels@[stage]),
            active_values(complex_side(before.0.shared)),
            active_values(complex_side(after.0.shared)),
        ),
{
    let list = route.stage_there(Mode::InPlace, stage, eager);
    let agreed = route.kind.spec_agrees();
    let b = route.boundary as int;
    let boundary = crew.core.spec_boundary();
    let arrive = arrive_step(Slot::Complex);
    if stage < b {
        assert(list =~= Seq::<Step>::empty());
        return arrive;
    }
    let step = kernel_step(
        stage,
        if stage == b {
            Slot::Real
        } else {
            Slot::Complex
        },
        Slot::Complex,
        Mode::InPlace,
        agreed || stage == b,
        false,
    );
    let worked = if stage == route.last() {
        assert(list =~= seq![step, arrive]);
        lemma_two_done::<R2cInPlaceTask<R, N, M>, R2cError, R2cInPlaceForwardCrew<FX, FC, XR, XC, N, M>>(crew, step, arrive, before, after)
    } else {
        assert(list =~= seq![step]);
        lemma_one_done::<R2cInPlaceTask<R, N, M>, R2cError, R2cInPlaceForwardCrew<FX, FC, XR, XC, N, M>>(crew, step, before, after);
        after
    };
    assert(worked.0.shared == after.0.shared);
    if stage == b {
        lemma_crossed_there::<R, FX, N, M>(
            *crew.crossing,
            boundary,
            shared_line_buffers(before.1),
            before.0.shared,
            worked.0.shared,
        );
    } else {
        let station = crew.core.spec_tail_station(Direction::Forward, step, &crew.kernels@[stage]);
        let line = before.1.complex_strided_line@.len() as usize;
        lemma_complex_worked::<R, R2cError, ComplexStation<FC, N, M>, N, M>(
            station,
            boundary,
            before.0.shared,
            worked.0.shared,
            line,
        );
        lemma_applied_maps::<Complex<R>, R2cError, ComplexStation<FC, N, M>, N, M>(
            station,
            complex_side(before.0.shared),
            complex_side(worked.0.shared),
            line,
        );
    }
    step
}

/// What a reverse execution makes of the values at a stage; the step of its kernel tells how, and
/// at the boundary what is left once the planes are cleared.
pub proof fn lemma_stage_home<R: FftReal, GX: Fn(&[Complex<R>], usize) -> Result<Vec<R>, LocalR2cError>, GC: Fn(&[Complex<R>], usize) -> Result<Vec<Complex<R>>, LocalC2cError>, ZR: Fn(usize, Passage, Load<R, N, M>) -> (Load<R, N, M>, Result<(), FftError>), ZC: Fn(usize, Passage, Load<Complex<R>, N, M>) -> (Load<Complex<R>, N, M>, Result<(), FftError>), V: Inspector<R, R2cError, N, M>, const N: usize, const M: usize>(
    crew: R2cInPlaceReverseCrew<GX, GC, ZR, ZC, V, N, M>,
    route: Itinerary,
    eager: Seq<bool>,
    stage: int,
    before: R2cInPlaceTask<R, N, M>,
    after: R2cInPlaceTask<R, N, M>,
) -> (how: (Step, ManyPencilArray<Complex<R>, N, M>))
    requires
        crew.core.wf(),
        crew.direction != Direction::Forward,
        lines_match(crew.core.spec_boundary()),
        lies_alike(crew.core.stages@),
        clearing_stays::<R, R2cError, V, N, M>(*crew.inspector),
        route == crew.core.itinerary(),
        route.wf(),
        route.stages == crew.core.stages@.len(),
        0 <= stage <= route.last(),
        comes_back(
            crew.core.spec_boundary(),
            route.boundary as int,
            2 * stage + 1,
            before.0.shared,
        ),
        all_done::<R2cInPlaceTask<R, N, M>, R2cError, R2cInPlaceReverseCrew<GX, GC, ZR, ZC, V, N, M>>(
            crew,
            route.stage_home(Mode::InPlace, stage, eager),
            before,
            after,
        ),
    ensures
        comes_back(crew.core.spec_boundary(), route.boundary as int, 2 * stage, after.0.shared),
        stage < route.boundary ==> after.0.shared == before.0.shared,
        stage == route.boundary ==> {
            &&& crew.inspector.clears(complex_side(before.0.shared), how.1, Ok(()))
            &&& hands_home::<R, LocalR2cError, GX>(
                *crew.crossing,
                crew.core.plan(),
                handoff_rows(crew.core.spec_boundary()),
                crew.core.boundary_stride()->0 as int,
                active_values(how.1),
                active_values(real_side(after.0.shared)),
            )
        },
        stage > route.boundary ==> how.0.work == Work::Kernel(stage as usize) && maps::<
            Complex<R>,
            Complex<R>,
            R2cError,
            ComplexStation<GC, N, M>,
        >(
            crew.core.spec_tail_station(crew.direction, how.0, &crew.kernels@[stage]),
            active_values(complex_side(before.0.shared)),
            active_values(complex_side(after.0.shared)),
        ),
{
    let list = route.stage_home(Mode::InPlace, stage, eager);
    let agreed = route.kind.spec_agrees();
    let b = route.boundary as int;
    let boundary = crew.core.spec_boundary();
    let arrive = arrive_step(Slot::Real);
    let work = if stage >= route.last() {
        route.reverse_entry(Mode::InPlace)
    } else {
        route.return_to(Mode::InPlace, stage, eager)
    };
    let worked = if stage == 0 {
        assert(list =~= work + seq![arrive]);
        let worked = lemma_all_done_split::<R2cInPlaceTask<R, N, M>, R2cError, R2cInPlaceReverseCrew<GX, GC, ZR, ZC, V, N, M>>(crew, work, seq![arrive], before, after);
        lemma_one_done::<R2cInPlaceTask<R, N, M>, R2cError, R2cInPlaceReverseCrew<GX, GC, ZR, ZC, V, N, M>>(crew, arrive, worked, after);
        worked
    } else {
        assert(list =~= work);
        after
    };
    assert(worked.0.shared == after.0.shared);
    if stage < b {
        assert(work =~= Seq::<Step>::empty());
        return (arrive, complex_side(before.0.shared));
    }
    let step = kernel_step(
        stage,
        Slot::Complex,
        if stage == b {
            Slot::Real
        } else {
            Slot::Complex
        },
        Mode::InPlace,
        agreed || stage == b,
        false,
    );
    if stage == b {
        let validate = endpoint_step(Work::Validate, false, false);
        let clear = endpoint_step(Work::Clear, agreed, false);
        assert(work =~= seq![validate, clear] + seq![step]);
        let cleared = lemma_all_done_split::<R2cInPlaceTask<R, N, M>, R2cError, R2cInPlaceReverseCrew<GX, GC, ZR, ZC, V, N, M>>(
            crew,
            seq![validate, clear],
            seq![step],
            before,
            worked,
        );
        let checked = lemma_two_done::<R2cInPlaceTask<R, N, M>, R2cError, R2cInPlaceReverseCrew<GX, GC, ZR, ZC, V, N, M>>(crew, validate, clear, before, cleared);
        lemma_one_done::<R2cInPlaceTask<R, N, M>, R2cError, R2cInPlaceReverseCrew<GX, GC, ZR, ZC, V, N, M>>(crew, step, cleared, worked);
        assert(checked == before);
        assert(boundary.stage.input.stride_along(boundary.stage.axis as int)
            == boundary.stage.output.stride_along(boundary.stage.axis as int));
        lemma_crossed_home::<R, GX, N, M>(
            *crew.crossing,
            boundary,
            shared_line_buffers(cleared.1),
            cleared.0.shared,
            worked.0.shared,
        );
        (step, complex_side(cleared.0.shared))
    } else {
        assert(work =~= seq![step]);
        lemma_one_done::<R2cInPlaceTask<R, N, M>, R2cError, R2cInPlaceReverseCrew<GX, GC, ZR, ZC, V, N, M>>(crew, step, before, worked);
        let station = crew.core.spec_tail_station(crew.direction, step, &crew.kernels@[stage]);
        let line = before.1.complex_strided_line@.len() as usize;
        lemma_complex_worked::<R, R2cError, ComplexStation<GC, N, M>, N, M>(
            station,
            boundary,
            before.0.shared,
            worked.0.shared,
            line,
        );
        lemma_applied_maps::<Complex<R>, R2cError, ComplexStation<GC, N, M>, N, M>(
            station,
            complex_side(before.0.shared),
            complex_side(worked.0.shared),
            line,
        );
        (step, complex_side(before.0.shared))
    }
}

/// The kernels and exchanges of the way back undo those of the way there, the exchanges that lead
/// to the boundary lead to its layouts, and the endpoint planes that the boundary makes need no
/// clearing.
pub open spec fn r2c_undone_in_place<R: FftReal, FX: Fn(&[R], usize) -> Result<Vec<Complex<R>>, LocalR2cError>, GX: Fn(&[Complex<R>], usize) -> Result<Vec<R>, LocalR2cError>, FC: Fn(&[Complex<R>], usize) -> Result<Vec<Complex<R>>, LocalC2cError>, GC: Fn(&[Complex<R>], usize) -> Result<Vec<Complex<R>>, LocalC2cError>, XR: Fn(usize, Passage, Load<R, N, M>) -> (Load<R, N, M>, Result<(), FftError>), XC: Fn(usize, Passage, Load<Complex<R>, N, M>) -> (Load<Complex<R>, N, M>, Result<(), FftError>), ZR: Fn(usize, Passage, Load<R, N, M>) -> (Load<R, N, M>, Result<(), FftError>), ZC: Fn(usize, Passage, Load<Complex<R>, N, M>) -> (Load<Complex<R>, N, M>, Result<(), FftError>), V: Inspector<R, R2cError, N, M>, const N: usize, const M: usize>(
    there: R2cInPlaceForwardCrew<FX, FC, XR, XC, N, M>,
    home: R2cInPlaceReverseCrew<GX, GC, ZR, ZC, V, N, M>,
) -> bool {
    let plan = there.core.plan();
    let edge = there.core.boundary as int;
    let transitions = there.core.transitions@;
    let boundary = there.core.spec_boundary();
    &&& *home.core == *there.core
    &&& home.direction != Direction::Forward
    &&& lies_alike(there.core.stages@)
    &&& lines_match(boundary)
    &&& kernels_undone::<Complex<R>, LocalC2cError, FC, GC>(there.kernels@, home.kernels@)
    &&& undoes::<R, Complex<R>, LocalR2cError, FX, GX>(*there.crossing, *home.crossing)
    &&& exchanges_undone::<R, XR, ZR, N, M>(
        *there.real_exchange,
        *home.real_exchange,
        transitions,
        home.direction,
    )
    &&& exchanges_undone::<Complex<R>, XC, ZC, N, M>(
        *there.exchange,
        *home.exchange,
        transitions,
        home.direction,
    )
    &&& 0 < edge ==> lands_in::<R, XR, N, M>(
        *there.real_exchange,
        (edge - 1) as usize,
        transitions[edge - 1].spec_passage(Direction::Forward),
        boundary.stage.input,
    )
    &&& edge < transitions.len() ==> lands_in::<Complex<R>, ZC, N, M>(
        *home.exchange,
        edge as usize,
        transitions[edge].spec_passage(home.direction),
        boundary.stage.output,
    )
    &&& clearing_stays::<R, R2cError, V, N, M>(*home.inspector)
    &&& clearing_keeps::<R, R2cError, V, N, M>(
        *home.inspector,
        handoff_makes::<R, LocalR2cError, FX>(
            *there.crossing,
            plan,
            handoff_rows(boundary),
            there.core.boundary_stride()->0 as int,
        ),
    )
}

proof fn lemma_move_there<R: FftReal, FX: Fn(&[R], usize) -> Result<Vec<Complex<R>>, LocalR2cError>, GX: Fn(&[Complex<R>], usize) -> Result<Vec<R>, LocalR2cError>, FC: Fn(&[Complex<R>], usize) -> Result<Vec<Complex<R>>, LocalC2cError>, GC: Fn(&[Complex<R>], usize) -> Result<Vec<Complex<R>>, LocalC2cError>, XR: Fn(usize, Passage, Load<R, N, M>) -> (Load<R, N, M>, Result<(), FftError>), XC: Fn(usize, Passage, Load<Complex<R>, N, M>) -> (Load<Complex<R>, N, M>, Result<(), FftError>), ZR: Fn(usize, Passage, Load<R, N, M>) -> (Load<R, N, M>, Result<(), FftError>), ZC: Fn(usize, Passage, Load<Complex<R>, N, M>) -> (Load<Complex<R>, N, M>, Result<(), FftError>), V: Inspector<R, R2cError, N, M>, const N: usize, const M: usize>(
    there: R2cInPlaceForwardCrew<FX, FC, XR, XC, N, M>,
    home: R2cInPlaceReverseCrew<GX, GC, ZR, ZC, V, N, M>,
    route: Itinerary,
    eager: Seq<bool>,
    index: int,
    before: R2cInPlaceTask<R, N, M>,
    after: R2cInPlaceTask<R, N, M>,
)
    requires
        Crew::<R2cInPlaceTask<R, N, M>, R2cError>::able(&there),
        r2c_undone_in_place::<R, FX, GX, FC, GC, XR, XC, ZR, ZC, V, N, M>(there, home),
        route == there.core.itinerary(),
        route.wf(),
        route.stages == there.core.stages@.len(),
        0 <= index < route.moves(),
        r2c_stands(there.core.spec_boundary(), route.boundary as int, index, before.0.shared),
        all_done::<R2cInPlaceTask<R, N, M>, R2cError, R2cInPlaceForwardCrew<FX, FC, XR, XC, N, M>>(there, route.move_there(Mode::InPlace, index, eager), before, after),
    ensures
        r2c_stands(there.core.spec_boundary(), route.boundary as int, index + 1, after.0.shared),
{
    let stage = index / 2;
    if index % 2 == 0 {
        assert(index == 2 * stage);
        let step = lemma_stage_there::<R, FX, FC, XR, XC, N, M>(
            there,
            route,
            eager,
            stage,
            before,
            after,
        );
    } else {
        assert(index == 2 * stage + 1);
        let at = route.carries_in(stage);
        let step = exchange_step(stage, at, Mode::InPlace, route.kind.spec_agrees());
        assert(route.move_there(Mode::InPlace, index, eager) =~= seq![step]);
        lemma_one_done::<R2cInPlaceTask<R, N, M>, R2cError, R2cInPlaceForwardCrew<FX, FC, XR, XC, N, M>>(there, step, before, after);
        lemma_shared_exchanged::<R, R2cError, XR, XC, N, M>(
            *there.real_exchange,
            *there.exchange,
            there.core.spec_boundary(),
            there.core.transitions@,
            Direction::Forward,
            stage as usize,
            at,
            shared_load(before),
            shared_load(after),
        );
    }
}

proof fn lemma_move_home<R: FftReal, FX: Fn(&[R], usize) -> Result<Vec<Complex<R>>, LocalR2cError>, GX: Fn(&[Complex<R>], usize) -> Result<Vec<R>, LocalR2cError>, FC: Fn(&[Complex<R>], usize) -> Result<Vec<Complex<R>>, LocalC2cError>, GC: Fn(&[Complex<R>], usize) -> Result<Vec<Complex<R>>, LocalC2cError>, XR: Fn(usize, Passage, Load<R, N, M>) -> (Load<R, N, M>, Result<(), FftError>), XC: Fn(usize, Passage, Load<Complex<R>, N, M>) -> (Load<Complex<R>, N, M>, Result<(), FftError>), ZR: Fn(usize, Passage, Load<R, N, M>) -> (Load<R, N, M>, Result<(), FftError>), ZC: Fn(usize, Passage, Load<Complex<R>, N, M>) -> (Load<Complex<R>, N, M>, Result<(), FftError>), V: Inspector<R, R2cError, N, M>, const N: usize, const M: usize>(
    there: R2cInPlaceForwardCrew<FX, FC, XR, XC, N, M>,
    home: R2cInPlaceReverseCrew<GX, GC, ZR, ZC, V, N, M>,
    route: Itinerary,
    eager: Seq<bool>,
    index: int,
    before: R2cInPlaceTask<R, N, M>,
    after: R2cInPlaceTask<R, N, M>,
)
    requires
        Crew::<R2cInPlaceTask<R, N, M>, R2cError>::able(&home),
        r2c_undone_in_place::<R, FX, GX, FC, GC, XR, XC, ZR, ZC, V, N, M>(there, home),
        route == there.core.itinerary(),
        route.wf(),
        route.stages == there.core.stages@.len(),
        0 <= index < route.moves(),
        comes_back(home.core.spec_boundary(), route.boundary as int, index + 1, before.0.shared),
        all_done::<R2cInPlaceTask<R, N, M>, R2cError, R2cInPlaceReverseCrew<GX, GC, ZR, ZC, V, N, M>>(home, route.move_home(Mode::InPlace, index, eager), before, after),
    ensures
        comes_back(home.core.spec_boundary(), route.boundary as int, index, after.0.shared),
{
    let stage = index / 2;
    if index % 2 == 0 {
        assert(index == 2 * stage);
        let how = lemma_stage_home::<R, GX, GC, ZR, ZC, V, N, M>(
            home,
            route,
            eager,
            stage,
            before,
            after,
        );
    } else {
        assert(index == 2 * stage + 1);
        let at = route.carries_in(stage);
        let step = exchange_step(stage, at, Mode::InPlace, route.kind.spec_agrees());
        assert(route.move_home(Mode::InPlace, index, eager) =~= seq![step]);
        lemma_one_done::<R2cInPlaceTask<R, N, M>, R2cError, R2cInPlaceReverseCrew<GX, GC, ZR, ZC, V, N, M>>(home, step, before, after);
        lemma_shared_exchanged::<R, R2cError, ZR, ZC, N, M>(
            *home.real_exchange,
            *home.exchange,
            home.core.spec_boundary(),
            home.core.transitions@,
            home.direction,
            stage as usize,
            at,
            shared_load(before),
            shared_load(after),
        );
    }
}

proof fn lemma_move_undone<R: FftReal, FX: Fn(&[R], usize) -> Result<Vec<Complex<R>>, LocalR2cError>, GX: Fn(&[Complex<R>], usize) -> Result<Vec<R>, LocalR2cError>, FC: Fn(&[Complex<R>], usize) -> Result<Vec<Complex<R>>, LocalC2cError>, GC: Fn(&[Complex<R>], usize) -> Result<Vec<Complex<R>>, LocalC2cError>, XR: Fn(usize, Passage, Load<R, N, M>) -> (Load<R, N, M>, Result<(), FftError>), XC: Fn(usize, Passage, Load<Complex<R>, N, M>) -> (Load<Complex<R>, N, M>, Result<(), FftError>), ZR: Fn(usize, Passage, Load<R, N, M>) -> (Load<R, N, M>, Result<(), FftError>), ZC: Fn(usize, Passage, Load<Complex<R>, N, M>) -> (Load<Complex<R>, N, M>, Result<(), FftError>), V: Inspector<R, R2cError, N, M>, const N: usize, const M: usize>(
    there: R2cInPlaceForwardCrew<FX, FC, XR, XC, N, M>,
    home: R2cInPlaceReverseCrew<GX, GC, ZR, ZC, V, N, M>,
    route: Itinerary,
    eager: (Seq<bool>, Seq<bool>),
    index: int,
    a: R2cInPlaceTask<R, N, M>,
    b: R2cInPlaceTask<R, N, M>,
    c: R2cInPlaceTask<R, N, M>,
    d: R2cInPlaceTask<R, N, M>,
)
    requires
        Crew::<R2cInPlaceTask<R, N, M>, R2cError>::able(&there),
        Crew::<R2cInPlaceTask<R, N, M>, R2cError>::able(&home),
        r2c_undone_in_place::<R, FX, GX, FC, GC, XR, XC, ZR, ZC, V, N, M>(there, home),
        route == there.core.itinerary(),
        route.wf(),
        route.stages == there.core.stages@.len(),
        0 <= index < route.moves(),
        r2c_stands(there.core.spec_boundary(), route.boundary as int, index, a.0.shared),
        comes_back(home.core.spec_boundary(), route.boundary as int, index + 1, c.0.shared),
        all_done::<R2cInPlaceTask<R, N, M>, R2cError, R2cInPlaceForwardCrew<FX, FC, XR, XC, N, M>>(there, route.move_there(Mode::InPlace, index, eager.0), a, b),
        all_done::<R2cInPlaceTask<R, N, M>, R2cError, R2cInPlaceReverseCrew<GX, GC, ZR, ZC, V, N, M>>(home, route.move_home(Mode::InPlace, index, eager.1), c, d),
        shared_values(c.0.shared) == shared_values(b.0.shared),
    ensures
        shared_values(d.0.shared) == shared_values(a.0.shared),
{
    let stage = index / 2;
    let edge = route.boundary as int;
    if index % 2 == 0 {
        assert(index == 2 * stage);
        let out = lemma_stage_there::<R, FX, FC, XR, XC, N, M>(there, route, eager.0, stage, a, b);
        let back = lemma_stage_home::<R, GX, GC, ZR, ZC, V, N, M>(
            home,
            route,
            eager.1,
            stage,
            c,
            d,
        );
        assert(there.core.stages@[stage].input.stride_along(there.core.stages@[stage].axis as int)
            == there.core.stages@[stage].output.stride_along(
            there.core.stages@[stage].axis as int,
        ));
        if stage == edge {
            let rows = handoff_rows(there.core.spec_boundary());
            let stride = there.core.boundary_stride()->0 as int;
            let made = active_values(complex_side(c.0.shared));
            assert(made == active_values(complex_side(b.0.shared)));
            assert(handoff_makes::<R, LocalR2cError, FX>(
                *there.crossing,
                there.core.plan(),
                rows,
                stride,
            )(made));
            assert(active_values(back.1) == made);
            law_handoff_undone::<R, LocalR2cError, FX, GX>(
                *there.crossing,
                *home.crossing,
                there.core.plan(),
                rows,
                stride,
                active_values(real_side(a.0.shared)),
                made,
                active_values(real_side(d.0.shared)),
            );
        } else if stage > edge {
            law_tail_station_undone::<Complex<R>, FC, GC, N, M>(
                there.core.spec_tail_station(Direction::Forward, out, &there.kernels@[stage]),
                home.core.spec_tail_station(home.direction, back.0, &home.kernels@[stage]),
            );
        }
    } else {
        assert(index == 2 * stage + 1);
        let at = route.carries_in(stage);
        let step = exchange_step(stage, at, Mode::InPlace, route.kind.spec_agrees());
        assert(route.move_there(Mode::InPlace, index, eager.0) =~= seq![step]);
        assert(route.move_home(Mode::InPlace, index, eager.1) =~= seq![step]);
        lemma_one_done::<R2cInPlaceTask<R, N, M>, R2cError, R2cInPlaceForwardCrew<FX, FC, XR, XC, N, M>>(there, step, a, b);
        lemma_one_done::<R2cInPlaceTask<R, N, M>, R2cError, R2cInPlaceReverseCrew<GX, GC, ZR, ZC, V, N, M>>(home, step, c, d);
        lemma_shared_exchanged::<R, R2cError, XR, XC, N, M>(
            *there.real_exchange,
            *there.exchange,
            there.core.spec_boundary(),
            there.core.transitions@,
            Direction::Forward,
            stage as usize,
            at,
            shared_load(a),
            shared_load(b),
        );
        lemma_shared_exchanged::<R, R2cError, ZR, ZC, N, M>(
            *home.real_exchange,
            *home.exchange,
            home.core.spec_boundary(),
            home.core.transitions@,
            home.direction,
            stage as usize,
            at,
            shared_load(c),
            shared_load(d),
        );
    }
}

/// A forward execution of a real-to-complex plan in place and a reverse one of what it made, with
/// kernels and exchanges that undo those of the first, give back the real values, where the
/// endpoint planes that the boundary makes need no clearing.
pub proof fn law_r2c_round_trip_in_place<R: FftReal, FX: Fn(&[R], usize) -> Result<Vec<Complex<R>>, LocalR2cError>, GX: Fn(&[Complex<R>], usize) -> Result<Vec<R>, LocalR2cError>, FC: Fn(&[Complex<R>], usize) -> Result<Vec<Complex<R>>, LocalC2cError>, GC: Fn(&[Complex<R>], usize) -> Result<Vec<Complex<R>>, LocalC2cError>, XR: Fn(usize, Passage, Load<R, N, M>) -> (Load<R, N, M>, Result<(), FftError>), XC: Fn(usize, Passage, Load<Complex<R>, N, M>) -> (Load<Complex<R>, N, M>, Result<(), FftError>), ZR: Fn(usize, Passage, Load<R, N, M>) -> (Load<R, N, M>, Result<(), FftError>), ZC: Fn(usize, Passage, Load<Complex<R>, N, M>) -> (Load<Complex<R>, N, M>, Result<(), FftError>), V: Inspector<R, R2cError, N, M>, A: Fn(bool) -> bool, B: Fn(bool) -> bool, const N: usize, const M: usize>(
    there: R2cInPlaceForwardCrew<FX, FC, XR, XC, N, M>,
    home: R2cInPlaceReverseCrew<GX, GC, ZR, ZC, V, N, M>,
    agree: (A, B),
    eager: (Seq<bool>, Seq<bool>),
    start: R2cInPlaceTask<R, N, M>,
    turn: R2cInPlaceTask<R, N, M>,
    from: R2cInPlaceTask<R, N, M>,
    end: R2cInPlaceTask<R, N, M>,
)
    requires
        Crew::<R2cInPlaceTask<R, N, M>, R2cError>::able(&there),
        Crew::<R2cInPlaceTask<R, N, M>, R2cError>::able(&home),
        r2c_undone_in_place::<R, FX, GX, FC, GC, XR, XC, ZR, ZC, V, N, M>(there, home),
        shelved(there.core.spec_boundary(), start.0.shared),
        holds_real(start.0.shared),
        enters_first(there.core.spec_boundary(), start.0.shared),
        lies_in(real_side(start.0.shared), there.core.stages@[0].input),
        steps_run::<R2cInPlaceTask<R, N, M>, R2cError, InTurn<R2cInPlaceForwardCrew<FX, FC, XR, XC, N, M>>, A>(
            InTurn { crew: &there },
            agree.0,
            there.core.itinerary().list(Direction::Forward, Mode::InPlace, eager.0),
            start,
            turn,
            Ok(()),
        ),
        from.0.shared == turn.0.shared,
        steps_run::<R2cInPlaceTask<R, N, M>, R2cError, InTurn<R2cInPlaceReverseCrew<GX, GC, ZR, ZC, V, N, M>>, B>(
            InTurn { crew: &home },
            agree.1,
            there.core.itinerary().list(home.direction, Mode::InPlace, eager.1),
            from,
            end,
            Ok(()),
        ),
    ensures
        holds_real(end.0.shared),
        active_values(real_side(end.0.shared)) == active_values(real_side(start.0.shared)),
{
    let route = there.core.itinerary();
    assert(there.core.stages.len() == there.core.stages@.len());
    let out = route.forward_list(Mode::InPlace, eager.0);
    let back = route.reverse_list(Mode::InPlace, eager.1);
    lemma_pieces_all_done::<R2cInPlaceTask<R, N, M>, R2cError, R2cInPlaceForwardCrew<FX, FC, XR, XC, N, M>, A>(there, agree.0, out, out.len() as int, start, turn);
    lemma_pieces_all_done::<R2cInPlaceTask<R, N, M>, R2cError, R2cInPlaceReverseCrew<GX, GC, ZR, ZC, V, N, M>, B>(home, agree.1, back, back.len() as int, from, end);
    assert(out.take(out.len() as int) =~= out);
    assert(back.take(back.len() as int) =~= back);
    route.lemma_forward_walks::<R2cInPlaceTask<R, N, M>, R2cError, R2cInPlaceForwardCrew<FX, FC, XR, XC, N, M>>(there, Mode::InPlace, eager.0, start, turn);
    route.lemma_reverse_walks::<R2cInPlaceTask<R, N, M>, R2cError, R2cInPlaceReverseCrew<GX, GC, ZR, ZC, V, N, M>>(home, Mode::InPlace, eager.1, from, end);
    let makes_there = route.makes_there::<R2cInPlaceTask<R, N, M>, R2cError, R2cInPlaceForwardCrew<FX, FC, XR, XC, N, M>>(there, Mode::InPlace, eager.0);
    let makes_home = route.makes_home::<R2cInPlaceTask<R, N, M>, R2cError, R2cInPlaceReverseCrew<GX, GC, ZR, ZC, V, N, M>>(home, Mode::InPlace, eager.1);
    let moves = route.moves();
    let edge = route.boundary as int;
    let boundary = there.core.spec_boundary();
    let holds_there = |index: int, state: R2cInPlaceTask<R, N, M>| r2c_stands(boundary, edge, index, state.0.shared);
    let holds_home = |index: int, state: R2cInPlaceTask<R, N, M>| comes_back(boundary, edge, index, state.0.shared);
    let see = |index: int, state: R2cInPlaceTask<R, N, M>| shared_values(state.0.shared);
    assert forall|index: int, a: R2cInPlaceTask<R, N, M>, b: R2cInPlaceTask<R, N, M>|
        0 <= index < moves && #[trigger] walked(makes_there, index, a, b) && holds_there(
            index,
            a,
        ) implies holds_there(index + 1, b) by {
        lemma_move_there::<R, FX, GX, FC, GC, XR, XC, ZR, ZC, V, N, M>(there, home, route, eager.0, index, a, b);
    }
    lemma_kept_there(makes_there, holds_there, moves, start, turn);
    assert forall|index: int, a: R2cInPlaceTask<R, N, M>, b: R2cInPlaceTask<R, N, M>|
        0 <= index < moves && #[trigger] walked(makes_home, index, a, b) && holds_home(
            index + 1,
            a,
        ) implies holds_home(index, b) by {
        lemma_move_home::<R, FX, GX, FC, GC, XR, XC, ZR, ZC, V, N, M>(there, home, route, eager.1, index, a, b);
    }
    lemma_kept_home(makes_home, holds_home, moves, from, end);
    let kept_out = kept_there(makes_there, holds_there);
    let kept_back = kept_home(makes_home, holds_home);
    assert forall|index: int, a: R2cInPlaceTask<R, N, M>, b: R2cInPlaceTask<R, N, M>, c: R2cInPlaceTask<R, N, M>, d: R2cInPlaceTask<R, N, M>|
        0 <= index < moves && #[trigger] walked(kept_out, index, a, b) && #[trigger] walked(
            kept_back,
            index,
            c,
            d,
        ) && see(index + 1, c) == see(index + 1, b) implies see(index, d) == see(index, a) by {
        assert(walked(makes_there, index, a, b));
        assert(walked(makes_home, index, c, d));
        lemma_move_undone::<R, FX, GX, FC, GC, XR, XC, ZR, ZC, V, N, M>(there, home, route, eager, index, a, b, c, d);
    }
    law_way_back(kept_out, kept_back, see, see, moves, start, turn, from, end);
}

} // verus!
