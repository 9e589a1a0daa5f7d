//! What an execution of a real-to-complex plan and its way back without normalization leave of the
//! values.

use vstd::prelude::*;

use crate::carrier::Load;
use crate::crew::Crew;
use crate::crew::InTurn;
use crate::crew::all_done;
use crate::crew::lemma_same_steps;
use crate::crew_r2c::R2cForwardCrew;
use crate::crew_r2c::R2cForwardOverlapCrew;
use crate::crew_r2c::R2cForwardTask;
use crate::crew_r2c::R2cReverseCrew;
use crate::crew_r2c::R2cReverseOverlapCrew;
use crate::crew_r2c::R2cReverseTask;
use crate::crew_r2c::half_load;
use crate::error::FftError;
use crate::error::LocalC2cError;
use crate::error::LocalR2cError;
use crate::error::OverlapError;
use crate::error::R2cError;
use crate::inspect::Inspector;
use crate::kernels::ForwardCrossing;
use crate::layout::Direction;
use crate::r2c::TransformPlanCore;
use crate::round_half::clearing_keeps;
use crate::round_half::converts_lines;
use crate::round_half::lies_alike;
use crate::round_r2c::boundary_made;
use crate::round_r2c::crossing_makes;
use crate::round_r2c::exchanged_makes;
use crate::round_r2c::lemma_boundary_home;
use crate::round_r2c::lemma_boundary_made;
use crate::round_r2c::lemma_stage_home;
use crate::round_r2c::lemma_stage_there;
use crate::round_r2c::seen_home;
use crate::round_r2c::seen_there;
use crate::round_trip::active_values;
use crate::round_trip::keeps_len;
use crate::round_trip::lemma_exchanged;
use crate::round_trip::lemma_one_done;
use crate::round_trip::lemma_two_done;
use crate::round_trip::maps;
use crate::run::steps_run;
use crate::scalar::Complex;
use crate::scalar::FftReal;
use crate::scaled::exchanges_undone_scaled;
use crate::scaled::gains_from;
use crate::scaled::half_scaled;
use crate::scaled::law_crossing_scaled;
use crate::scaled::law_tail_station_scaled;
use crate::scaled::once_keeps;
use crate::scaled::returns_scaled;
use crate::scaled::scaled;
use crate::scaled::scaled_makes;
use crate::scaled::tail_gain;
use crate::schedule::Itinerary;
use crate::schedule::Mode;
use crate::schedule::Slot;
use crate::schedule::Work;
use crate::schedule::endpoint_step;
use crate::schedule::exchange_step;
use crate::transition::Passage;
use crate::walk::kept_there;
use crate::walk::law_overlap_does_steps;
use crate::walk::law_way_back_by;
use crate::walk::lemma_all_done_split;
use crate::walk::lemma_kept_there;
use crate::walk::lemma_pieces_all_done;
use crate::walk::ran_overlapped;
use crate::walk::walked;

verus! {

/// How often the values of each stage come back: the length of its lines, or once where it has no
/// kernel.
pub open spec fn r2c_gains<const N: usize, const M: usize>(core: TransformPlanCore<N, M>) -> Seq<int> {
    Seq::new(
        core.stages@.len(),
        |i: int|
            if i < core.boundary {
                1
            } else if i == core.boundary {
                core.plan().real_len as int
            } else {
                tail_gain(core.locals@[i])
            },
    )
}

/// The kernels and exchanges of the way back undo those of the way there up to the gains of the
/// stages, and the endpoint planes that the boundary makes need no clearing, times what they are.
pub open spec fn r2c_undone_scaled<R: FftReal, FX: Fn(&[R], usize) -> Result<Vec<Complex<R>>, LocalR2cError>, GX: Fn(&[Complex<R>], usize) -> Result<Vec<R>, LocalR2cError>, FC: Fn(&[Complex<R>], usize) -> Result<Vec<Complex<R>>, LocalC2cError>, GC: Fn(&[Complex<R>], usize) -> Result<Vec<Complex<R>>, LocalC2cError>, XR: Fn(usize, Passage, Load<R, N, M>) -> (Load<R, N, M>, Result<(), FftError>), ZR: Fn(usize, Passage, Load<R, N, M>) -> (Load<R, N, M>, Result<(), FftError>), XC: Fn(usize, Passage, Load<Complex<R>, N, M>) -> (Load<Complex<R>, N, M>, Result<(), FftError>), ZC: Fn(usize, Passage, Load<Complex<R>, N, M>) -> (Load<Complex<R>, N, M>, Result<(), FftError>), V: Inspector<R, R2cError, N, M>, const N: usize, const M: usize>(
    there: R2cForwardCrew<R, FX, FC, XR, XC, N, M>,
    home: R2cReverseCrew<R, GX, GC, ZR, ZC, V, N, M>,
    times: (spec_fn(int, R) -> R, spec_fn(int, Complex<R>) -> Complex<R>),
) -> bool {
    let plan = there.core.plan();
    &&& *home.core == *there.core
    &&& home.direction == Direction::Backward
    &&& lies_alike(there.core.stages@)
    &&& once_keeps(times.1)
    &&& once_keeps(times.0)
    &&& forall|i: int|
        there.core.boundary < i < there.kernels@.len() ==> returns_scaled::<Complex<R>, Complex<R>, LocalC2cError, FC, GC>(
            #[trigger] there.kernels@[i],
            home.kernels@[i],
            (times.1, times.1),
            r2c_gains(*there.core)[i],
        ) && keeps_len::<Complex<R>, Complex<R>, LocalC2cError, FC>(there.kernels@[i]) && keeps_len::<Complex<R>, Complex<R>, LocalC2cError, GC>(
            home.kernels@[i],
        )
    &&& returns_scaled::<R, Complex<R>, LocalR2cError, FX, GX>(
        *there.crossing,
        *home.crossing,
        times,
        plan.real_len as int,
    )
    &&& converts_lines::<R, Complex<R>, LocalR2cError, FX>(
        *there.crossing,
        plan.real_len as int,
        plan.complex_len as int,
    )
    &&& converts_lines::<Complex<R>, R, LocalR2cError, GX>(
        *home.crossing,
        plan.complex_len as int,
        plan.real_len as int,
    )
    &&& exchanges_undone_scaled::<R, XR, ZR, N, M>(
        *there.real_exchange,
        *home.real_exchange,
        there.core.transitions@,
        home.direction,
        times.0,
    )
    &&& exchanges_undone_scaled::<Complex<R>, XC, ZC, N, M>(
        *there.exchange,
        *home.exchange,
        there.core.transitions@,
        home.direction,
        times.1,
    )
    &&& clearing_keeps::<R, R2cError, V, N, M>(
        *home.inspector,
        scaled_makes(times.1, crossing_makes::<R, FX, N, M>(*there.core, *there.crossing)),
    )
}

/// The endpoint planes need no clearing in front of the exchange that leads back to the boundary,
/// times what they are.
pub open spec fn clearing_keeps_exchanged_scaled<R: FftReal, FX: Fn(&[R], usize) -> Result<Vec<Complex<R>>, LocalR2cError>, GX: Fn(&[Complex<R>], usize) -> Result<Vec<R>, LocalR2cError>, FC: Fn(&[Complex<R>], usize) -> Result<Vec<Complex<R>>, LocalC2cError>, GC: Fn(&[Complex<R>], usize) -> Result<Vec<Complex<R>>, LocalC2cError>, XR: Fn(usize, Passage, Load<R, N, M>) -> (Load<R, N, M>, Result<(), FftError>), ZR: Fn(usize, Passage, Load<R, N, M>) -> (Load<R, N, M>, Result<(), FftError>), XC: Fn(usize, Passage, Load<Complex<R>, N, M>) -> (Load<Complex<R>, N, M>, Result<(), FftError>), ZC: Fn(usize, Passage, Load<Complex<R>, N, M>) -> (Load<Complex<R>, N, M>, Result<(), FftError>), V: Inspector<R, R2cError, N, M>, const N: usize, const M: usize>(
    there: R2cForwardCrew<R, FX, FC, XR, XC, N, M>,
    home: R2cReverseCrew<R, GX, GC, ZR, ZC, V, N, M>,
    times: (spec_fn(int, R) -> R, spec_fn(int, Complex<R>) -> Complex<R>),
) -> bool {
    clearing_keeps::<R, R2cError, V, N, M>(
        *home.inspector,
        scaled_makes(times.1, exchanged_makes::<R, FX, FC, XR, XC, N, M>(there)),
    )
}

proof fn lemma_move_scaled<R: FftReal, FX: Fn(&[R], usize) -> Result<Vec<Complex<R>>, LocalR2cError>, GX: Fn(&[Complex<R>], usize) -> Result<Vec<R>, LocalR2cError>, FC: Fn(&[Complex<R>], usize) -> Result<Vec<Complex<R>>, LocalC2cError>, GC: Fn(&[Complex<R>], usize) -> Result<Vec<Complex<R>>, LocalC2cError>, XR: Fn(usize, Passage, Load<R, N, M>) -> (Load<R, N, M>, Result<(), FftError>), ZR: Fn(usize, Passage, Load<R, N, M>) -> (Load<R, N, M>, Result<(), FftError>), XC: Fn(usize, Passage, Load<Complex<R>, N, M>) -> (Load<Complex<R>, N, M>, Result<(), FftError>), ZC: Fn(usize, Passage, Load<Complex<R>, N, M>) -> (Load<Complex<R>, N, M>, Result<(), FftError>), V: Inspector<R, R2cError, N, M>, const N: usize, const M: usize>(
    there: R2cForwardCrew<R, FX, FC, XR, XC, N, M>,
    home: R2cReverseCrew<R, GX, GC, ZR, ZC, V, N, M>,
    times: (spec_fn(int, R) -> R, spec_fn(int, Complex<R>) -> Complex<R>),
    route: Itinerary,
    mode: Mode,
    eager: (Seq<bool>, Seq<bool>),
    index: int,
    a: R2cForwardTask<R, N, M>,
    b: R2cForwardTask<R, N, M>,
    c: R2cReverseTask<R, N, M>,
    d: R2cReverseTask<R, N, M>,
)
    requires
        there.able(),
        home.able(),
        r2c_undone_scaled::<R, FX, GX, FC, GC, XR, ZR, XC, ZC, V, N, M>(there, home, times),
        route == there.core.itinerary(),
        route.wf(),
        mode != Mode::InPlace,
        route.stages == there.core.stages@.len(),
        0 <= index < route.moves(),
        mode == Mode::Overlap ==> clearing_keeps_exchanged_scaled::<R, FX, GX, FC, GC, XR, ZR, XC, ZC, V, N, M>(there, home, times),
        boundary_made(there, route, index, a),
        all_done::<R2cForwardTask<R, N, M>, R2cError, R2cForwardCrew<R, FX, FC, XR, XC, N, M>>(
            there,
            route.move_there(mode, index, eager.0),
            a,
            b,
        ),
        all_done::<R2cReverseTask<R, N, M>, R2cError, R2cReverseCrew<R, GX, GC, ZR, ZC, V, N, M>>(
            home,
            route.move_home(mode, index, eager.1),
            c,
            d,
        ),
        seen_home(home, route.moves(), index + 1, c) == half_scaled(times, gains_from(r2c_gains(*there.core), (index + 2) / 2), seen_there(there, route.moves(), index + 1, b)),
    ensures
        seen_home(home, route.moves(), index, d) == half_scaled(times, gains_from(r2c_gains(*there.core), (index + 1) / 2), seen_there(there, route.moves(), index, a)),
{
    let stage = index / 2;
    let gains = r2c_gains(*there.core);
    let factor = gains_from(gains, stage + 1);
    assert(there.core.stages.len() == there.core.stages@.len());
    assert(there.core.locals@.len() == there.core.stages@.len());
    let edge = route.boundary as int;
    if index % 2 == 0 {
        assert(index == 2 * stage);
        assert(gains_from(gains, stage) == factor * gains[stage]);
        assert((index + 1) / 2 == stage && (index + 2) / 2 == stage + 1);
        assert(factor * 1 == factor);
        let out = lemma_stage_there(there, route, mode, eager.0, stage, a, b);
        let given = seen_there(there, route.moves(), index, a);
        let made = seen_there(there, route.moves(), index + 1, b);
        assert(there.core.stages@[stage].input.stride_along(there.core.stages@[stage].axis as int)
            == there.core.stages@[stage].output.stride_along(
            there.core.stages@[stage].axis as int,
        ));
        if stage == edge {
            let back = lemma_boundary_home(home, route, mode, eager.1, c, d);
            let crossing = there.core.spec_forward_crossing(there.crossing, out.1);
            assert(given is Real && made is Complex);
            assert(maps::<R, Complex<R>, R2cError, ForwardCrossing<FX, N, M>>(
                crossing,
                given->Real_0,
                made->Complex_0,
            ));
            let makes = crossing_makes::<R, FX, N, M>(*there.core, *there.crossing);
            assert(makes(made->Complex_0));
            assert(active_values(back.2) == scaled(times.1, factor, made->Complex_0));
            assert(scaled_makes(times.1, makes)(active_values(back.2)));
            assert(active_values(back.3) == active_values(back.2));
            law_crossing_scaled::<R, FX, GX, N, M>(
                crossing,
                home.core.spec_reverse_crossing(home.crossing, back.1),
                times,
                factor,
                given->Real_0,
                made->Complex_0,
                seen_home(home, route.moves(), index, d)->Real_0,
            );
        } else {
            let back = lemma_stage_home(home, route, mode, eager.1, stage, c, d);
            if stage > edge {
                law_tail_station_scaled::<Complex<R>, FC, GC, N, M>(
                    there.core.spec_tail_station(Direction::Forward, out.0, &there.kernels@[stage]),
                    home.core.spec_tail_station(Direction::Inverse, back.0, &home.kernels@[stage]),
                    times.1,
                    factor,
                    given->Complex_0,
                    made->Complex_0,
                    seen_home(home, route.moves(), index, d)->Complex_0,
                );
            }
        }
    } else {
        let at = route.carries_in(stage);
        let step = exchange_step(stage, at, mode, route.kind.spec_agrees());
        assert(index == 2 * stage + 1);
        assert((index + 1) / 2 == stage + 1 && (index + 2) / 2 == stage + 1);
        assert(route.move_there(mode, index, eager.0) =~= seq![step]);
        lemma_one_done::<R2cForwardTask<R, N, M>, R2cError, R2cForwardCrew<R, FX, FC, XR, XC, N, M>>(there, step, a, b);
        let list = route.move_home(mode, index, eager.1);
        let handed = if route.checks_early(mode, stage) {
            let validate = endpoint_step(Work::Validate, false, false);
            let clear = endpoint_step(Work::Clear, false, false);
            assert(list =~= seq![validate, clear] + seq![step]);
            let handed = lemma_all_done_split::<R2cReverseTask<R, N, M>, R2cError, R2cReverseCrew<R, GX, GC, ZR, ZC, V, N, M>>(
                home,
                seq![validate, clear],
                seq![step],
                c,
                d,
            );
            let checked = lemma_two_done::<R2cReverseTask<R, N, M>, R2cError, R2cReverseCrew<R, GX, GC, ZR, ZC, V, N, M>>(home, validate, clear, c, handed);
            lemma_one_done::<R2cReverseTask<R, N, M>, R2cError, R2cReverseCrew<R, GX, GC, ZR, ZC, V, N, M>>(home, step, handed, d);
            let (la, lb) = (half_load(a.1), half_load(b.1));
            lemma_exchanged::<Complex<R>, R2cError, XC, N, M>(
                *there.exchange,
                there.core.transitions@,
                Direction::Forward,
                stage as usize,
                (la.complexes, la.buffers),
                (lb.complexes, lb.buffers),
            );
            let makes = exchanged_makes::<R, FX, FC, XR, XC, N, M>(there);
            assert(makes(active_values(b.1.intermediate)));
            assert(active_values(c.1.intermediate) == scaled(times.1, factor, active_values(b.1.intermediate)));
            assert(scaled_makes(times.1, makes)(active_values(c.1.intermediate)));
            handed
        } else {
            assert(list =~= seq![step]);
            lemma_one_done::<R2cReverseTask<R, N, M>, R2cError, R2cReverseCrew<R, GX, GC, ZR, ZC, V, N, M>>(home, step, c, d);
            c
        };
        let (la, lb) = (half_load(a.1), half_load(b.1));
        let (lc, ld) = (half_load(handed.1), half_load(d.1));
        if at == Slot::Real {
            let sent = (lb.reals->0, lb.real_buffers->0);
            let returned = (lc.reals->0, lc.real_buffers->0);
            lemma_exchanged::<R, R2cError, XR, N, M>(
                *there.real_exchange,
                there.core.transitions@,
                Direction::Forward,
                stage as usize,
                (la.reals->0, la.real_buffers->0),
                sent,
            );
            lemma_exchanged::<R, R2cError, ZR, N, M>(
                *home.real_exchange,
                home.core.transitions@,
                home.direction,
                stage as usize,
                returned,
                (ld.reals->0, ld.real_buffers->0),
            );
            assert(active_values(returned.0) == scaled(times.0, factor, active_values(sent.0)));
        } else {
            let sent = (lb.complexes, lb.buffers);
            let returned = (lc.complexes, lc.buffers);
            lemma_exchanged::<Complex<R>, R2cError, XC, N, M>(
                *there.exchange,
                there.core.transitions@,
                Direction::Forward,
                stage as usize,
                (la.complexes, la.buffers),
                sent,
            );
            lemma_exchanged::<Complex<R>, R2cError, ZC, N, M>(
                *home.exchange,
                home.core.transitions@,
                home.direction,
                stage as usize,
                returned,
                (ld.complexes, ld.buffers),
            );
            assert(active_values(returned.0) == scaled(times.1, factor, active_values(sent.0)));
        }
    }
}

/// The steps of a forward execution and of its way back without normalization give back the values
/// times the product of the gains.
proof fn lemma_steps_scaled<R: FftReal, FX: Fn(&[R], usize) -> Result<Vec<Complex<R>>, LocalR2cError>, GX: Fn(&[Complex<R>], usize) -> Result<Vec<R>, LocalR2cError>, FC: Fn(&[Complex<R>], usize) -> Result<Vec<Complex<R>>, LocalC2cError>, GC: Fn(&[Complex<R>], usize) -> Result<Vec<Complex<R>>, LocalC2cError>, XR: Fn(usize, Passage, Load<R, N, M>) -> (Load<R, N, M>, Result<(), FftError>), ZR: Fn(usize, Passage, Load<R, N, M>) -> (Load<R, N, M>, Result<(), FftError>), XC: Fn(usize, Passage, Load<Complex<R>, N, M>) -> (Load<Complex<R>, N, M>, Result<(), FftError>), ZC: Fn(usize, Passage, Load<Complex<R>, N, M>) -> (Load<Complex<R>, N, M>, Result<(), FftError>), V: Inspector<R, R2cError, N, M>, const N: usize, const M: usize>(
    there: R2cForwardCrew<R, FX, FC, XR, XC, N, M>,
    home: R2cReverseCrew<R, GX, GC, ZR, ZC, V, N, M>,
    times: (spec_fn(int, R) -> R, spec_fn(int, Complex<R>) -> Complex<R>),
    mode: Mode,
    eager: (Seq<bool>, Seq<bool>),
    start: R2cForwardTask<R, N, M>,
    turn: R2cForwardTask<R, N, M>,
    from: R2cReverseTask<R, N, M>,
    end: R2cReverseTask<R, N, M>,
)
    requires
        mode != Mode::InPlace,
        there.able(),
        home.able(),
        r2c_undone_scaled::<R, FX, GX, FC, GC, XR, ZR, XC, ZC, V, N, M>(there, home, times),
        mode == Mode::Overlap ==> clearing_keeps_exchanged_scaled::<R, FX, GX, FC, GC, XR, ZR, XC, ZC, V, N, M>(there, home, times),
        all_done::<R2cForwardTask<R, N, M>, R2cError, R2cForwardCrew<R, FX, FC, XR, XC, N, M>>(
            there,
            there.core.itinerary().list(Direction::Forward, mode, eager.0),
            start,
            turn,
        ),
        home.source.data@ == turn.0.data@,
        all_done::<R2cReverseTask<R, N, M>, R2cError, R2cReverseCrew<R, GX, GC, ZR, ZC, V, N, M>>(
            home,
            there.core.itinerary().list(home.direction, mode, eager.1),
            from,
            end,
        ),
    ensures
        end.0.data@ == scaled(times.0, gains_from(r2c_gains(*there.core), 0), there.source.data@),
{
    let route = there.core.itinerary();
    let gains = r2c_gains(*there.core);
    assert(there.core.stages.len() == there.core.stages@.len());
    assert(there.core.locals@.len() == there.core.stages@.len());
    route.lemma_forward_walks::<R2cForwardTask<R, N, M>, R2cError, R2cForwardCrew<R, FX, FC, XR, XC, N, M>>(there, mode, eager.0, start, turn);
    route.lemma_reverse_walks::<R2cReverseTask<R, N, M>, R2cError, R2cReverseCrew<R, GX, GC, ZR, ZC, V, N, M>>(home, mode, eager.1, from, end);
    let makes_there = route.makes_there::<R2cForwardTask<R, N, M>, R2cError, R2cForwardCrew<R, FX, FC, XR, XC, N, M>>(there, mode, eager.0);
    let makes_home = route.makes_home::<R2cReverseTask<R, N, M>, R2cError, R2cReverseCrew<R, GX, GC, ZR, ZC, V, N, M>>(home, mode, eager.1);
    let moves = route.moves();
    let made_there = |index: int, state: R2cForwardTask<R, N, M>| boundary_made(there, route, index, state);
    assert forall|index: int, a: R2cForwardTask<R, N, M>, b: R2cForwardTask<R, N, M>|
        0 <= index < moves && #[trigger] walked(makes_there, index, a, b) && made_there(
            index,
            a,
        ) implies made_there(index + 1, b) by {
        lemma_boundary_made(there, route, mode, eager.0, index, a, b);
    }
    lemma_kept_there(makes_there, made_there, moves, start, turn);
    let kept = kept_there(makes_there, made_there);
    let related = |index: int, c: R2cReverseTask<R, N, M>, b: R2cForwardTask<R, N, M>|
        seen_home(home, moves, index, c) == half_scaled(times, gains_from(gains, (index + 1) / 2), seen_there(there, moves, index, b));
    assert forall|index: int, a: R2cForwardTask<R, N, M>, b: R2cForwardTask<R, N, M>, c: R2cReverseTask<R, N, M>, d: R2cReverseTask<R, N, M>|
        0 <= index < moves && #[trigger] walked(kept, index, a, b) && #[trigger] walked(
            makes_home,
            index,
            c,
            d,
        ) && related(index + 1, c, b) implies related(index, d, a) by {
        assert(walked(makes_there, index, a, b));
        lemma_move_scaled::<R, FX, GX, FC, GC, XR, ZR, XC, ZC, V, N, M>(there, home, times, route, mode, eager, index, a, b, c, d);
    }
    assert(gains_from(gains, (moves + 1) / 2) == 1);
    assert(scaled(times.1, 1, turn.0.data@) =~= turn.0.data@);
    assert(related(moves, from, turn));
    law_way_back_by(kept, makes_home, related, moves, start, turn, from, end);
    assert(related(0, end, start));
}

/// A forward execution of a real-to-complex plan out of place and its way back without
/// normalization give back the values times the product of the gains of all stages, with kernels
/// that lead back to multiples and exchanges that undo those of the first, where the endpoint
/// planes that the boundary makes need no clearing.
pub proof fn law_r2c_backward_scales<R: FftReal, FX: Fn(&[R], usize) -> Result<Vec<Complex<R>>, LocalR2cError>, GX: Fn(&[Complex<R>], usize) -> Result<Vec<R>, LocalR2cError>, FC: Fn(&[Complex<R>], usize) -> Result<Vec<Complex<R>>, LocalC2cError>, GC: Fn(&[Complex<R>], usize) -> Result<Vec<Complex<R>>, LocalC2cError>, XR: Fn(usize, Passage, Load<R, N, M>) -> (Load<R, N, M>, Result<(), FftError>), ZR: Fn(usize, Passage, Load<R, N, M>) -> (Load<R, N, M>, Result<(), FftError>), XC: Fn(usize, Passage, Load<Complex<R>, N, M>) -> (Load<Complex<R>, N, M>, Result<(), FftError>), ZC: Fn(usize, Passage, Load<Complex<R>, N, M>) -> (Load<Complex<R>, N, M>, Result<(), FftError>), V: Inspector<R, R2cError, N, M>, A: Fn(bool) -> bool, B: Fn(bool) -> bool, const N: usize, const M: usize>(
    there: R2cForwardCrew<R, FX, FC, XR, XC, N, M>,
    home: R2cReverseCrew<R, GX, GC, ZR, ZC, V, N, M>,
    times: (spec_fn(int, R) -> R, spec_fn(int, Complex<R>) -> Complex<R>),
    agree: (A, B),
    eager: (Seq<bool>, Seq<bool>),
    start: R2cForwardTask<R, N, M>,
    turn: R2cForwardTask<R, N, M>,
    from: R2cReverseTask<R, N, M>,
    end: R2cReverseTask<R, N, M>,
)
    requires
        there.able(),
        home.able(),
        r2c_undone_scaled::<R, FX, GX, FC, GC, XR, ZR, XC, ZC, V, N, M>(there, home, times),
        steps_run::<R2cForwardTask<R, N, M>, R2cError, InTurn<R2cForwardCrew<R, FX, FC, XR, XC, N, M>>, A>(
            InTurn { crew: &there },
            agree.0,
            there.core.itinerary().list(Direction::Forward, Mode::OutOfPlace, eager.0),
            start,
            turn,
            Ok(()),
        ),
        home.source.data@ == turn.0.data@,
        steps_run::<R2cReverseTask<R, N, M>, R2cError, InTurn<R2cReverseCrew<R, GX, GC, ZR, ZC, V, N, M>>, B>(
            InTurn { crew: &home },
            agree.1,
            there.core.itinerary().list(home.direction, Mode::OutOfPlace, eager.1),
            from,
            end,
            Ok(()),
        ),
    ensures
        end.0.data@ == scaled(times.0, gains_from(r2c_gains(*there.core), 0), there.source.data@),
{
    let route = there.core.itinerary();
    let out = route.forward_list(Mode::OutOfPlace, eager.0);
    let back = route.reverse_list(Mode::OutOfPlace, eager.1);
    lemma_pieces_all_done::<R2cForwardTask<R, N, M>, R2cError, R2cForwardCrew<R, FX, FC, XR, XC, N, M>, A>(there, agree.0, out, out.len() as int, start, turn);
    lemma_pieces_all_done::<R2cReverseTask<R, N, M>, R2cError, R2cReverseCrew<R, GX, GC, ZR, ZC, V, N, M>, B>(home, agree.1, back, back.len() as int, from, end);
    assert(out.take(out.len() as int) =~= out);
    assert(back.take(back.len() as int) =~= back);
    lemma_steps_scaled::<R, FX, GX, FC, GC, XR, ZR, XC, ZC, V, N, M>(there, home, times, Mode::OutOfPlace, eager, start, turn, from, end);
}

/// A forward execution of a real-to-complex plan with overlap and its way back with overlap and
/// without normalization give back the values times the product of the gains of all stages, with
/// kernels that lead back to multiples and exchanges that undo those of the first, where work
/// inside an exchange comes to work behind it and the endpoint planes need no clearing.
pub proof fn law_r2c_backward_scales_overlapped<R: FftReal, FX: Fn(&[R], usize) -> Result<Vec<Complex<R>>, LocalR2cError>, GX: Fn(&[Complex<R>], usize) -> Result<Vec<R>, LocalR2cError>, FC: Fn(&[Complex<R>], usize) -> Result<Vec<Complex<R>>, LocalC2cError>, GC: Fn(&[Complex<R>], usize) -> Result<Vec<Complex<R>>, LocalC2cError>, XR: Fn(usize, Passage, Load<R, N, M>) -> (Load<R, N, M>, Result<(), FftError>), ZR: Fn(usize, Passage, Load<R, N, M>) -> (Load<R, N, M>, Result<(), FftError>), XC: Fn(usize, Passage, Load<Complex<R>, N, M>) -> (Load<Complex<R>, N, M>, Result<(), FftError>), ZC: Fn(usize, Passage, Load<Complex<R>, N, M>) -> (Load<Complex<R>, N, M>, Result<(), FftError>), V: Inspector<R, R2cError, N, M>, YR: Fn(usize, Direction, Option<bool>, Load<R, N, M>) -> (Load<R, N, M>, Result<(), OverlapError<R2cError>>), YC: Fn(usize, Direction, Option<bool>, Load<Complex<R>, N, M>) -> (Load<Complex<R>, N, M>, Result<(), OverlapError<R2cError>>), UR: Fn(usize, Direction, Option<bool>, Load<R, N, M>) -> (Load<R, N, M>, Result<(), OverlapError<R2cError>>), UC: Fn(usize, Direction, Option<bool>, Load<Complex<R>, N, M>) -> (Load<Complex<R>, N, M>, Result<(), OverlapError<R2cError>>), A: Fn(bool) -> bool, B: Fn(bool) -> bool, const N: usize, const M: usize>(
    there: R2cForwardOverlapCrew<R, FX, FC, XR, XC, YR, YC, N, M>,
    home: R2cReverseOverlapCrew<R, GX, GC, ZR, ZC, V, UR, UC, N, M>,
    times: (spec_fn(int, R) -> R, spec_fn(int, Complex<R>) -> Complex<R>),
    agree: (A, B),
    eager: (Seq<bool>, Seq<bool>),
    start: R2cForwardTask<R, N, M>,
    turn: R2cForwardTask<R, N, M>,
    from: R2cReverseTask<R, N, M>,
    end: R2cReverseTask<R, N, M>,
)
    requires
        r2c_undone_scaled::<R, FX, GX, FC, GC, XR, ZR, XC, ZC, V, N, M>(there.crew, home.crew, times),
        clearing_keeps_exchanged_scaled::<R, FX, GX, FC, GC, XR, ZR, XC, ZC, V, N, M>(there.crew, home.crew, times),
        ran_overlapped::<R2cForwardTask<R, N, M>, R2cError, R2cForwardOverlapCrew<R, FX, FC, XR, XC, YR, YC, N, M>, A>(
            there,
            agree.0,
            there.crew.core.itinerary().list(Direction::Forward, Mode::Overlap, eager.0),
            start,
            turn,
        ),
        home.crew.source.data@ == turn.0.data@,
        ran_overlapped::<R2cReverseTask<R, N, M>, R2cError, R2cReverseOverlapCrew<R, GX, GC, ZR, ZC, V, UR, UC, N, M>, B>(
            home,
            agree.1,
            there.crew.core.itinerary().list(home.crew.direction, Mode::Overlap, eager.1),
            from,
            end,
        ),
    ensures
        end.0.data@ == scaled(times.0, gains_from(r2c_gains(*there.crew.core), 0), there.crew.source.data@),
{
    let route = there.crew.core.itinerary();
    let out = route.forward_list(Mode::Overlap, eager.0);
    let back = route.reverse_list(Mode::Overlap, eager.1);
    law_overlap_does_steps::<R2cForwardTask<R, N, M>, R2cError, R2cForwardOverlapCrew<R, FX, FC, XR, XC, YR, YC, N, M>, A>(there, agree.0, out, out.len() as int, start, turn);
    law_overlap_does_steps::<R2cReverseTask<R, N, M>, R2cError, R2cReverseOverlapCrew<R, GX, GC, ZR, ZC, V, UR, UC, N, M>, B>(home, agree.1, back, back.len() as int, from, end);
    assert(out.take(out.len() as int) =~= out);
    assert(back.take(back.len() as int) =~= back);
    lemma_same_steps::<R2cForwardTask<R, N, M>, R2cError, R2cForwardOverlapCrew<R, FX, FC, XR, XC, YR, YC, N, M>, R2cForwardCrew<R, FX, FC, XR, XC, N, M>>(there, there.crew, out, start, turn);
    lemma_same_steps::<R2cReverseTask<R, N, M>, R2cError, R2cReverseOverlapCrew<R, GX, GC, ZR, ZC, V, UR, UC, N, M>, R2cReverseCrew<R, GX, GC, ZR, ZC, V, N, M>>(home, home.crew, back, from, end);
    lemma_steps_scaled::<R, FX, GX, FC, GC, XR, ZR, XC, ZC, V, N, M>(there.crew, home.crew, times, Mode::Overlap, eager, start, turn, from, end);
}

} // verus!
