//! What an execution of a real-to-complex plan in place and its way back without normalization
//! leave of the values.

use vstd::prelude::*;

use crate::carrier::Load;
use crate::convert::complex_handed_over;
use crate::convert::handoff_rows;
use crate::convert::real_handed_over;
use crate::crew::Crew;
use crate::crew::InTurn;
use crate::crew::all_done;
use crate::crew_r2c_ip::R2cInPlaceForwardCrew;
use crate::crew_r2c_ip::R2cInPlaceReverseCrew;
use crate::crew_r2c_ip::R2cInPlaceTask;
use crate::crew_r2c_ip::shared_load;
use crate::error::FftError;
use crate::error::LocalC2cError;
use crate::error::LocalR2cError;
use crate::error::R2cError;
use crate::handoff::Boundary;
use crate::handoff::LineBuffers;
use crate::handoff::SharedStorage;
use crate::inspect::Inspector;
use crate::layout::Direction;
use crate::round_half::clearing_keeps;
use crate::round_half::lies_alike;
use crate::round_r2c_ip::enters_first;
use crate::round_r2c_ip::lemma_crossed_home;
use crate::round_r2c_ip::lemma_crossed_there;
use crate::round_r2c_ip::lemma_stage_home;
use crate::round_r2c_ip::lemma_stage_there;
use crate::round_r2c_ip::r2c_stands;
use crate::round_shared::clearing_stays;
use crate::round_shared::comes_back;
use crate::round_shared::handoff_makes;
use crate::round_shared::holds_real;
use crate::round_shared::lands_in;
use crate::round_shared::lemma_shared_exchanged;
use crate::round_shared::lies_in;
use crate::round_shared::lines_match;
use crate::round_shared::shared_values;
use crate::round_shared::shelved;
use crate::round_trip::active_values;
use crate::round_trip::keeps_len;
use crate::round_trip::lemma_one_done;
use crate::run::steps_run;
use crate::scalar::Complex;
use crate::scalar::FftReal;
use crate::scaled::exchanges_undone_scaled;
use crate::scaled::gains_from;
use crate::scaled::half_scaled;
use crate::scaled::law_handoff_scaled;
use crate::scaled::law_tail_station_scaled;
use crate::scaled::once_keeps;
use crate::scaled::returns_scaled;
use crate::scaled::scaled;
use crate::scaled::scaled_makes;
use crate::scaled_r2c::r2c_gains;
use crate::schedule::Itinerary;
use crate::schedule::Mode;
use crate::schedule::Slot;
use crate::schedule::exchange_step;
use crate::shared::complex_side;
use crate::shared::real_side;
use crate::transition::Passage;
use crate::walk::kept_home;
use crate::walk::kept_there;
use crate::walk::law_way_back_by;
use crate::walk::lemma_kept_home;
use crate::walk::lemma_kept_there;
use crate::walk::lemma_pieces_all_done;
use crate::walk::walked;

verus! {

/// The kernels and exchanges of the way back undo those of the way there up to the gains of the
/// stages, the exchanges that lead to the boundary lead to its layouts, and the endpoint planes
/// that the boundary makes need no clearing, times what they are.
pub open spec fn r2c_undone_scaled_in_place<R: FftReal, FX: Fn(&[R], usize) -> Result<Vec<Complex<R>>, LocalR2cError>, GX: Fn(&[Complex<R>], usize) -> Result<Vec<R>, LocalR2cError>, FC: Fn(&[Complex<R>], usize) -> Result<Vec<Complex<R>>, LocalC2cError>, GC: Fn(&[Complex<R>], usize) -> Result<Vec<Complex<R>>, LocalC2cError>, XR: Fn(usize, Passage, Load<R, N, M>) -> (Load<R, N, M>, Result<(), FftError>), XC: Fn(usize, Passage, Load<Complex<R>, N, M>) -> (Load<Complex<R>, N, M>, Result<(), FftError>), ZR: Fn(usize, Passage, Load<R, N, M>) -> (Load<R, N, M>, Result<(), FftError>), ZC: Fn(usize, Passage, Load<Complex<R>, N, M>) -> (Load<Complex<R>, N, M>, Result<(), FftError>), V: Inspector<R, R2cError, N, M>, const N: usize, const M: usize>(
    there: R2cInPlaceForwardCrew<FX, FC, XR, XC, N, M>,
    home: R2cInPlaceReverseCrew<GX, GC, ZR, ZC, V, N, M>,
    times: (spec_fn(int, R) -> R, spec_fn(int, Complex<R>) -> Complex<R>),
) -> bool {
    let plan = there.core.plan();
    let edge = there.core.boundary as int;
    let transitions = there.core.transitions@;
    let boundary = there.core.spec_boundary();
    &&& *home.core == *there.core
    &&& home.direction == Direction::Backward
    &&& lies_alike(there.core.stages@)
    &&& lines_match(boundary)
    &&& once_keeps(times.0)
    &&& once_keeps(times.1)
    &&& forall|i: int|
        there.core.boundary < i < there.kernels@.len() ==> returns_scaled::<Complex<R>, Complex<R>, LocalC2cError, FC, GC>(
            #[trigger] there.kernels@[i],
            home.kernels@[i],
            (times.1, times.1),
            r2c_gains(*there.core)[i],
        ) && keeps_len::<Complex<R>, Complex<R>, LocalC2cError, FC>(there.kernels@[i]) && keeps_len::<Complex<R>, Complex<R>, LocalC2cError, GC>(
            home.kernels@[i],
        )
    &&& returns_scaled::<R, Complex<R>, LocalR2cError, FX, GX>(
        *there.crossing,
        *home.crossing,
        times,
        plan.real_len as int,
    )
    &&& exchanges_undone_scaled::<R, XR, ZR, N, M>(
        *there.real_exchange,
        *home.real_exchange,
        transitions,
        home.direction,
        times.0,
    )
    &&& exchanges_undone_scaled::<Complex<R>, XC, ZC, N, M>(
        *there.exchange,
        *home.exchange,
        transitions,
        home.direction,
        times.1,
    )
    &&& 0 < edge ==> lands_in::<R, XR, N, M>(
        *there.real_exchange,
        (edge - 1) as usize,
        transitions[edge - 1].spec_passage(Direction::Forward),
        boundary.stage.input,
    )
    &&& edge < transitions.len() ==> lands_in::<Complex<R>, ZC, N, M>(
        *home.exchange,
        edge as usize,
        transitions[edge].spec_passage(home.direction),
        boundary.stage.output,
    )
    &&& clearing_stays::<R, R2cError, V, N, M>(*home.inspector)
    &&& clearing_keeps::<R, R2cError, V, N, M>(
        *home.inspector,
        scaled_makes(times.1, handoff_makes::<R, LocalR2cError, FX>(
            *there.crossing,
            plan,
            handoff_rows(boundary),
            there.core.boundary_stride()->0 as int,
        )),
    )
}

proof fn lemma_move_there<R: FftReal, FX: Fn(&[R], usize) -> Result<Vec<Complex<R>>, LocalR2cError>, GX: Fn(&[Complex<R>], usize) -> Result<Vec<R>, LocalR2cError>, FC: Fn(&[Complex<R>], usize) -> Result<Vec<Complex<R>>, LocalC2cError>, GC: Fn(&[Complex<R>], usize) -> Result<Vec<Complex<R>>, LocalC2cError>, XR: Fn(usize, Passage, Load<R, N, M>) -> (Load<R, N, M>, Result<(), FftError>), XC: Fn(usize, Passage, Load<Complex<R>, N, M>) -> (Load<Complex<R>, N, M>, Result<(), FftError>), ZR: Fn(usize, Passage, Load<R, N, M>) -> (Load<R, N, M>, Result<(), FftError>), ZC: Fn(usize, Passage, Load<Complex<R>, N, M>) -> (Load<Complex<R>, N, M>, Result<(), FftError>), V: Inspector<R, R2cError, N, M>, const N: usize, const M: usize>(
    there: R2cInPlaceForwardCrew<FX, FC, XR, XC, N, M>,
    home: R2cInPlaceReverseCrew<GX, GC, ZR, ZC, V, N, M>,
    times: (spec_fn(int, R) -> R, spec_fn(int, Complex<R>) -> Complex<R>),
    route: Itinerary,
    eager: Seq<bool>,
    index: int,
    before: R2cInPlaceTask<R, N, M>,
    after: R2cInPlaceTask<R, N, M>,
)
    requires
        Crew::<R2cInPlaceTask<R, N, M>, R2cError>::able(&there),
        r2c_undone_scaled_in_place::<R, FX, GX, FC, GC, XR, XC, ZR, ZC, V, N, M>(there, home, times),
        route == there.core.itinerary(),
        route.wf(),
        route.stages == there.core.stages@.len(),
        0 <= index < route.moves(),
        r2c_stands(there.core.spec_boundary(), route.boundary as int, index, before.0.shared),
        all_done::<R2cInPlaceTask<R, N, M>, R2cError, R2cInPlaceForwardCrew<FX, FC, XR, XC, N, M>>(there, route.move_there(Mode::InPlace, index, eager), before, after),
    ensures
        r2c_stands(there.core.spec_boundary(), route.boundary as int, index + 1, after.0.shared),
{
    let stage = index / 2;
    if index % 2 == 0 {
        assert(index == 2 * stage);
        let step = lemma_stage_there::<R, FX, FC, XR, XC, N, M>(
            there,
            route,
            eager,
            stage,
            before,
            after,
        );
    } else {
        assert(index == 2 * stage + 1);
        let at = route.carries_in(stage);
        let step = exchange_step(stage, at, Mode::InPlace, route.kind.spec_agrees());
        assert(route.move_there(Mode::InPlace, index, eager) =~= seq![step]);
        lemma_one_done::<R2cInPlaceTask<R, N, M>, R2cError, R2cInPlaceForwardCrew<FX, FC, XR, XC, N, M>>(there, step, before, after);
        lemma_shared_exchanged::<R, R2cError, XR, XC, N, M>(
            *there.real_exchange,
            *there.exchange,
            there.core.spec_boundary(),
            there.core.transitions@,
            Direction::Forward,
            stage as usize,
            at,
            shared_load(before),
            shared_load(after),
        );
    }
}

proof fn lemma_move_home<R: FftReal, FX: Fn(&[R], usize) -> Result<Vec<Complex<R>>, LocalR2cError>, GX: Fn(&[Complex<R>], usize) -> Result<Vec<R>, LocalR2cError>, FC: Fn(&[Complex<R>], usize) -> Result<Vec<Complex<R>>, LocalC2cError>, GC: Fn(&[Complex<R>], usize) -> Result<Vec<Complex<R>>, LocalC2cError>, XR: Fn(usize, Passage, Load<R, N, M>) -> (Load<R, N, M>, Result<(), FftError>), XC: Fn(usize, Passage, Load<Complex<R>, N, M>) -> (Load<Complex<R>, N, M>, Result<(), FftError>), ZR: Fn(usize, Passage, Load<R, N, M>) -> (Load<R, N, M>, Result<(), FftError>), ZC: Fn(usize, Passage, Load<Complex<R>, N, M>) -> (Load<Complex<R>, N, M>, Result<(), FftError>), V: Inspector<R, R2cError, N, M>, const N: usize, const M: usize>(
    there: R2cInPlaceForwardCrew<FX, FC, XR, XC, N, M>,
    home: R2cInPlaceReverseCrew<GX, GC, ZR, ZC, V, N, M>,
    times: (spec_fn(int, R) -> R, spec_fn(int, Complex<R>) -> Complex<R>),
    route: Itinerary,
    eager: Seq<bool>,
    index: int,
    before: R2cInPlaceTask<R, N, M>,
    after: R2cInPlaceTask<R, N, M>,
)
    requires
        Crew::<R2cInPlaceTask<R, N, M>, R2cError>::able(&home),
        r2c_undone_scaled_in_place::<R, FX, GX, FC, GC, XR, XC, ZR, ZC, V, N, M>(there, home, times),
        route == there.core.itinerary(),
        route.wf(),
        route.stages == there.core.stages@.len(),
        0 <= index < route.moves(),
        comes_back(home.core.spec_boundary(), route.boundary as int, index + 1, before.0.shared),
        all_done::<R2cInPlaceTask<R, N, M>, R2cError, R2cInPlaceReverseCrew<GX, GC, ZR, ZC, V, N, M>>(home, route.move_home(Mode::InPlace, index, eager), before, after),
    ensures
        comes_back(home.core.spec_boundary(), route.boundary as int, index, after.0.shared),
{
    let stage = index / 2;
    if index % 2 == 0 {
        assert(index == 2 * stage);
        let how = lemma_stage_home::<R, GX, GC, ZR, ZC, V, N, M>(
            home,
            route,
            eager,
            stage,
            before,
            after,
        );
    } else {
        assert(index == 2 * stage + 1);
        let at = route.carries_in(stage);
        let step = exchange_step(stage, at, Mode::InPlace, route.kind.spec_agrees());
        assert(route.move_home(Mode::InPlace, index, eager) =~= seq![step]);
        lemma_one_done::<R2cInPlaceTask<R, N, M>, R2cError, R2cInPlaceReverseCrew<GX, GC, ZR, ZC, V, N, M>>(home, step, before, after);
        lemma_shared_exchanged::<R, R2cError, ZR, ZC, N, M>(
            *home.real_exchange,
            *home.exchange,
            home.core.spec_boundary(),
            home.core.transitions@,
            home.direction,
            stage as usize,
            at,
            shared_load(before),
            shared_load(after),
        );
    }
}

proof fn lemma_move_scaled<R: FftReal, FX: Fn(&[R], usize) -> Result<Vec<Complex<R>>, LocalR2cError>, GX: Fn(&[Complex<R>], usize) -> Result<Vec<R>, LocalR2cError>, FC: Fn(&[Complex<R>], usize) -> Result<Vec<Complex<R>>, LocalC2cError>, GC: Fn(&[Complex<R>], usize) -> Result<Vec<Complex<R>>, LocalC2cError>, XR: Fn(usize, Passage, Load<R, N, M>) -> (Load<R, N, M>, Result<(), FftError>), XC: Fn(usize, Passage, Load<Complex<R>, N, M>) -> (Load<Complex<R>, N, M>, Result<(), FftError>), ZR: Fn(usize, Passage, Load<R, N, M>) -> (Load<R, N, M>, Result<(), FftError>), ZC: Fn(usize, Passage, Load<Complex<R>, N, M>) -> (Load<Complex<R>, N, M>, Result<(), FftError>), V: Inspector<R, R2cError, N, M>, const N: usize, const M: usize>(
    there: R2cInPlaceForwardCrew<FX, FC, XR, XC, N, M>,
    home: R2cInPlaceReverseCrew<GX, GC, ZR, ZC, V, N, M>,
    times: (spec_fn(int, R) -> R, spec_fn(int, Complex<R>) -> Complex<R>),
    route: Itinerary,
    eager: (Seq<bool>, Seq<bool>),
    index: int,
    a: R2cInPlaceTask<R, N, M>,
    b: R2cInPlaceTask<R, N, M>,
    c: R2cInPlaceTask<R, N, M>,
    d: R2cInPlaceTask<R, N, M>,
)
    requires
        Crew::<R2cInPlaceTask<R, N, M>, R2cError>::able(&there),
        Crew::<R2cInPlaceTask<R, N, M>, R2cError>::able(&home),
        r2c_undone_scaled_in_place::<R, FX, GX, FC, GC, XR, XC, ZR, ZC, V, N, M>(there, home, times),
        route == there.core.itinerary(),
        route.wf(),
        route.stages == there.core.stages@.len(),
        0 <= index < route.moves(),
        r2c_stands(there.core.spec_boundary(), route.boundary as int, index, a.0.shared),
        comes_back(home.core.spec_boundary(), route.boundary as int, index + 1, c.0.shared),
        all_done::<R2cInPlaceTask<R, N, M>, R2cError, R2cInPlaceForwardCrew<FX, FC, XR, XC, N, M>>(there, route.move_there(Mode::InPlace, index, eager.0), a, b),
        all_done::<R2cInPlaceTask<R, N, M>, R2cError, R2cInPlaceReverseCrew<GX, GC, ZR, ZC, V, N, M>>(home, route.move_home(Mode::InPlace, index, eager.1), c, d),
        shared_values(c.0.shared) == half_scaled(times, gains_from(r2c_gains(*there.core), (index + 2) / 2), shared_values(b.0.shared)),
    ensures
        shared_values(d.0.shared) == half_scaled(times, gains_from(r2c_gains(*there.core), (index + 1) / 2), shared_values(a.0.shared)),
{
    let stage = index / 2;
    let edge = route.boundary as int;
    let gains = r2c_gains(*there.core);
    let factor = gains_from(gains, stage + 1);
    assert(there.core.stages.len() == there.core.stages@.len());
    assert(there.core.locals@.len() == there.core.stages@.len());
    if index % 2 == 0 {
        assert(index == 2 * stage);
        assert(gains_from(gains, stage) == factor * gains[stage]);
        assert((index + 1) / 2 == stage && (index + 2) / 2 == stage + 1);
        assert(factor * 1 == factor);
        let out = lemma_stage_there::<R, FX, FC, XR, XC, N, M>(there, route, eager.0, stage, a, b);
        let back = lemma_stage_home::<R, GX, GC, ZR, ZC, V, N, M>(
            home,
            route,
            eager.1,
            stage,
            c,
            d,
        );
        assert(there.core.stages@[stage].input.stride_along(there.core.stages@[stage].axis as int)
            == there.core.stages@[stage].output.stride_along(
            there.core.stages@[stage].axis as int,
        ));
        if stage == edge {
            let rows = handoff_rows(there.core.spec_boundary());
            let stride = there.core.boundary_stride()->0 as int;
            let made = active_values(complex_side(b.0.shared));
            let makes = handoff_makes::<R, LocalR2cError, FX>(
                *there.crossing,
                there.core.plan(),
                rows,
                stride,
            );
            assert(makes(made));
            assert(active_values(complex_side(c.0.shared)) == scaled(times.1, factor, made));
            assert(scaled_makes(times.1, makes)(active_values(complex_side(c.0.shared))));
            assert(active_values(back.1) == active_values(complex_side(c.0.shared)));
            law_handoff_scaled::<R, LocalR2cError, FX, GX>(
                (*there.crossing, *home.crossing),
                times,
                (factor, there.core.plan().real_len as int),
                there.core.plan(),
                rows,
                stride,
                active_values(real_side(a.0.shared)),
                made,
                active_values(real_side(d.0.shared)),
            );
        } else if stage > edge {
            law_tail_station_scaled::<Complex<R>, FC, GC, N, M>(
                there.core.spec_tail_station(Direction::Forward, out, &there.kernels@[stage]),
                home.core.spec_tail_station(home.direction, back.0, &home.kernels@[stage]),
                times.1,
                factor,
                active_values(complex_side(a.0.shared)),
                active_values(complex_side(b.0.shared)),
                active_values(complex_side(d.0.shared)),
            );
        }
    } else {
        assert(index == 2 * stage + 1);
        assert((index + 1) / 2 == stage + 1 && (index + 2) / 2 == stage + 1);
        let at = route.carries_in(stage);
        let step = exchange_step(stage, at, Mode::InPlace, route.kind.spec_agrees());
        assert(route.move_there(Mode::InPlace, index, eager.0) =~= seq![step]);
        assert(route.move_home(Mode::InPlace, index, eager.1) =~= seq![step]);
        lemma_one_done::<R2cInPlaceTask<R, N, M>, R2cError, R2cInPlaceForwardCrew<FX, FC, XR, XC, N, M>>(there, step, a, b);
        lemma_one_done::<R2cInPlaceTask<R, N, M>, R2cError, R2cInPlaceReverseCrew<GX, GC, ZR, ZC, V, N, M>>(home, step, c, d);
        lemma_shared_exchanged::<R, R2cError, XR, XC, N, M>(
            *there.real_exchange,
            *there.exchange,
            there.core.spec_boundary(),
            there.core.transitions@,
            Direction::Forward,
            stage as usize,
            at,
            shared_load(a),
            shared_load(b),
        );
        lemma_shared_exchanged::<R, R2cError, ZR, ZC, N, M>(
            *home.real_exchange,
            *home.exchange,
            home.core.spec_boundary(),
            home.core.transitions@,
            home.direction,
            stage as usize,
            at,
            shared_load(c),
            shared_load(d),
        );
        if at == Slot::Real {
            let sent = (shared_load(b).shared, shared_load(c).shared);
            assert(active_values(real_side(sent.1)) == scaled(times.0, factor, active_values(real_side(sent.0))));
        } else {
            let sent = (shared_load(b).shared, shared_load(c).shared);
            assert(active_values(complex_side(sent.1)) == scaled(times.1, factor, active_values(complex_side(sent.0))));
        }
    }
}

/// A forward execution of a real-to-complex plan in place and its way back without normalization give
/// back the real values times the product of the gains of all stages, with kernels that lead back to
/// multiples and exchanges that undo those of the first, where the endpoint planes that the boundary
/// makes need no clearing.
#[verifier::spinoff_prover]
#[verifier::rlimit(60)]
pub proof fn law_r2c_backward_scales_in_place<R: FftReal, FX: Fn(&[R], usize) -> Result<Vec<Complex<R>>, LocalR2cError>, GX: Fn(&[Complex<R>], usize) -> Result<Vec<R>, LocalR2cError>, FC: Fn(&[Complex<R>], usize) -> Result<Vec<Complex<R>>, LocalC2cError>, GC: Fn(&[Complex<R>], usize) -> Result<Vec<Complex<R>>, LocalC2cError>, XR: Fn(usize, Passage, Load<R, N, M>) -> (Load<R, N, M>, Result<(), FftError>), XC: Fn(usize, Passage, Load<Complex<R>, N, M>) -> (Load<Complex<R>, N, M>, Result<(), FftError>), ZR: Fn(usize, Passage, Load<R, N, M>) -> (Load<R, N, M>, Result<(), FftError>), ZC: Fn(usize, Passage, Load<Complex<R>, N, M>) -> (Load<Complex<R>, N, M>, Result<(), FftError>), V: Inspector<R, R2cError, N, M>, A: Fn(bool) -> bool, B: Fn(bool) -> bool, const N: usize, const M: usize>(
    there: R2cInPlaceForwardCrew<FX, FC, XR, XC, N, M>,
    home: R2cInPlaceReverseCrew<GX, GC, ZR, ZC, V, N, M>,
    times: (spec_fn(int, R) -> R, spec_fn(int, Complex<R>) -> Complex<R>),
    agree: (A, B),
    eager: (Seq<bool>, Seq<bool>),
    start: R2cInPlaceTask<R, N, M>,
    turn: R2cInPlaceTask<R, N, M>,
    from: R2cInPlaceTask<R, N, M>,
    end: R2cInPlaceTask<R, N, M>,
)
    requires
        Crew::<R2cInPlaceTask<R, N, M>, R2cError>::able(&there),
        Crew::<R2cInPlaceTask<R, N, M>, R2cError>::able(&home),
        r2c_undone_scaled_in_place::<R, FX, GX, FC, GC, XR, XC, ZR, ZC, V, N, M>(there, home, times),
        shelved(there.core.spec_boundary(), start.0.shared),
        holds_real(start.0.shared),
        enters_first(there.core.spec_boundary(), start.0.shared),
        lies_in(real_side(start.0.shared), there.core.stages@[0].input),
        steps_run::<R2cInPlaceTask<R, N, M>, R2cError, InTurn<R2cInPlaceForwardCrew<FX, FC, XR, XC, N, M>>, A>(
            InTurn { crew: &there },
            agree.0,
            there.core.itinerary().list(Direction::Forward, Mode::InPlace, eager.0),
            start,
            turn,
            Ok(()),
        ),
        from.0.shared == turn.0.shared,
        steps_run::<R2cInPlaceTask<R, N, M>, R2cError, InTurn<R2cInPlaceReverseCrew<GX, GC, ZR, ZC, V, N, M>>, B>(
            InTurn { crew: &home },
            agree.1,
            there.core.itinerary().list(home.direction, Mode::InPlace, eager.1),
            from,
            end,
            Ok(()),
        ),
    ensures
        holds_real(end.0.shared),
        active_values(real_side(end.0.shared)) == scaled(times.0, gains_from(r2c_gains(*there.core), 0), active_values(real_side(start.0.shared))),
{
    let route = there.core.itinerary();
    assert(there.core.stages.len() == there.core.stages@.len());
    let out = route.forward_list(Mode::InPlace, eager.0);
    let back = route.reverse_list(Mode::InPlace, eager.1);
    lemma_pieces_all_done::<R2cInPlaceTask<R, N, M>, R2cError, R2cInPlaceForwardCrew<FX, FC, XR, XC, N, M>, A>(there, agree.0, out, out.len() as int, start, turn);
    lemma_pieces_all_done::<R2cInPlaceTask<R, N, M>, R2cError, R2cInPlaceReverseCrew<GX, GC, ZR, ZC, V, N, M>, B>(home, agree.1, back, back.len() as int, from, end);
    assert(out.take(out.len() as int) =~= out);
    assert(back.take(back.len() as int) =~= back);
    route.lemma_forward_walks::<R2cInPlaceTask<R, N, M>, R2cError, R2cInPlaceForwardCrew<FX, FC, XR, XC, N, M>>(there, Mode::InPlace, eager.0, start, turn);
    route.lemma_reverse_walks::<R2cInPlaceTask<R, N, M>, R2cError, R2cInPlaceReverseCrew<GX, GC, ZR, ZC, V, N, M>>(home, Mode::InPlace, eager.1, from, end);
    let makes_there = route.makes_there::<R2cInPlaceTask<R, N, M>, R2cError, R2cInPlaceForwardCrew<FX, FC, XR, XC, N, M>>(there, Mode::InPlace, eager.0);
    let makes_home = route.makes_home::<R2cInPlaceTask<R, N, M>, R2cError, R2cInPlaceReverseCrew<GX, GC, ZR, ZC, V, N, M>>(home, Mode::InPlace, eager.1);
    let moves = route.moves();
    let edge = route.boundary as int;
    let boundary = there.core.spec_boundary();
    let holds_there = |index: int, state: R2cInPlaceTask<R, N, M>| r2c_stands(boundary, edge, index, state.0.shared);
    let holds_home = |index: int, state: R2cInPlaceTask<R, N, M>| comes_back(boundary, edge, index, state.0.shared);
    let gains = r2c_gains(*there.core);
    assert(there.core.locals@.len() == there.core.stages@.len());
    let related = |index: int, c: R2cInPlaceTask<R, N, M>, b: R2cInPlaceTask<R, N, M>|
        shared_values(c.0.shared) == half_scaled(times, gains_from(gains, (index + 1) / 2), shared_values(b.0.shared));
    assert forall|index: int, a: R2cInPlaceTask<R, N, M>, b: R2cInPlaceTask<R, N, M>|
        0 <= index < moves && #[trigger] walked(makes_there, index, a, b) && holds_there(
            index,
            a,
        ) implies holds_there(index + 1, b) by {
        lemma_move_there::<R, FX, GX, FC, GC, XR, XC, ZR, ZC, V, N, M>(there, home, times, route, eager.0, index, a, b);
    }
    lemma_kept_there(makes_there, holds_there, moves, start, turn);
    assert forall|index: int, a: R2cInPlaceTask<R, N, M>, b: R2cInPlaceTask<R, N, M>|
        0 <= index < moves && #[trigger] walked(makes_home, index, a, b) && holds_home(
            index + 1,
            a,
        ) implies holds_home(index, b) by {
        lemma_move_home::<R, FX, GX, FC, GC, XR, XC, ZR, ZC, V, N, M>(there, home, times, route, eager.1, index, a, b);
    }
    lemma_kept_home(makes_home, holds_home, moves, from, end);
    let kept_out = kept_there(makes_there, holds_there);
    let kept_back = kept_home(makes_home, holds_home);
    assert forall|index: int, a: R2cInPlaceTask<R, N, M>, b: R2cInPlaceTask<R, N, M>, c: R2cInPlaceTask<R, N, M>, d: R2cInPlaceTask<R, N, M>|
        0 <= index < moves && #[trigger] walked(kept_out, index, a, b) && #[trigger] walked(
            kept_back,
            index,
            c,
            d,
        ) && related(index + 1, c, b) implies related(index, d, a) by {
        assert(walked(makes_there, index, a, b));
        assert(walked(makes_home, index, c, d));
        lemma_move_scaled::<R, FX, GX, FC, GC, XR, XC, ZR, ZC, V, N, M>(there, home, times, route, eager, index, a, b, c, d);
    }
    assert(gains_from(gains, (moves + 1) / 2) == 1);
    let turned = active_values(complex_side(turn.0.shared));
    assert(scaled(times.1, 1, turned) =~= turned);
    assert(holds_there(moves, turn));
    assert(related(moves, from, turn));
    law_way_back_by(kept_out, kept_back, related, moves, start, turn, from, end);
    assert(related(0, end, start));
}

/// The real side of an allocation of a real-to-complex plan that was handed over to the complex
/// side and back holds the values times `gain`, where the kernels lead back to that multiple: once
/// where the one back divides by the length of a line, and that length where it does not.
pub proof fn law_r2c_handoff_scales<R: FftReal, FX: Fn(&[R], usize) -> Result<Vec<Complex<R>>, LocalR2cError>, GX: Fn(&[Complex<R>], usize) -> Result<Vec<R>, LocalR2cError>, const N: usize, const M: usize>(
    kernels: (FX, GX),
    times: (spec_fn(int, R) -> R, spec_fn(int, Complex<R>) -> Complex<R>),
    gain: int,
    boundary: Boundary<N, M>,
    buffers: (LineBuffers, LineBuffers),
    before: SharedStorage<R, N, M>,
    between: SharedStorage<R, N, M>,
    after: SharedStorage<R, N, M>,
)
    requires
        boundary.wf(),
        lines_match(boundary),
        boundary.complex_stride() == boundary.real_stride(),
        shelved(boundary, before),
        holds_real(before),
        enters_first(boundary, before),
        lies_in(real_side(before), boundary.stage.input),
        once_keeps(times.1),
        returns_scaled::<R, Complex<R>, LocalR2cError, FX, GX>(kernels.0, kernels.1, times, gain),
        real_handed_over::<R, FX, N, M>(
            kernels.0,
            boundary,
            buffers.0,
            before,
            between,
            Ok(()),
        ),
        complex_handed_over::<R, GX, N, M>(
            kernels.1,
            boundary,
            buffers.1,
            between,
            after,
            Ok(()),
        ),
    ensures
        holds_real(after),
        active_values(real_side(after)) == scaled(times.0, gain, active_values(real_side(before))),
{
    lemma_crossed_there::<R, FX, N, M>(kernels.0, boundary, buffers.0, before, between);
    lemma_crossed_home::<R, GX, N, M>(kernels.1, boundary, buffers.1, between, after);
    let made = active_values(complex_side(between));
    assert(scaled(times.1, 1, made) =~= made);
    assert(1 * gain == gain);
    law_handoff_scaled::<R, LocalR2cError, FX, GX>(
        kernels,
        times,
        (1, gain),
        boundary.plan,
        handoff_rows(boundary),
        boundary.real_stride()->0 as int,
        active_values(real_side(before)),
        made,
        active_values(real_side(after)),
    );
}

} // verus!
