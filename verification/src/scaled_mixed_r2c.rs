//! What an execution of a mixed real-to-complex plan and its way back without normalization leave
//! of the values.

use vstd::prelude::*;

use crate::carrier::Load;
use crate::crew::Crew;
use crate::crew::InTurn;
use crate::crew::all_done;
use crate::crew_mixed_r2c::MixedR2cForwardCrew;
use crate::crew_mixed_r2c::MixedR2cForwardTask;
use crate::crew_mixed_r2c::MixedR2cReverseCrew;
use crate::crew_mixed_r2c::MixedR2cReverseTask;
use crate::crew_mixed_r2c::mixed_half_load;
use crate::error::FftError;
use crate::error::MixedError;
use crate::inspect::Inspector;
use crate::kernels::MixedForwardCrossing;
use crate::layout::Direction;
use crate::local::MixedR2cStageLocal;
use crate::mixed_r2c::MixedR2cCore;
use crate::round_half::clearing_keeps;
use crate::round_half::converts_lines;
use crate::round_half::lies_alike;
use crate::round_mixed_r2c::crossing_makes;
use crate::round_mixed_r2c::lemma_boundary_home;
use crate::round_mixed_r2c::lemma_stage_home;
use crate::round_mixed_r2c::lemma_stage_there;
use crate::round_mixed_r2c::seen_home;
use crate::round_mixed_r2c::seen_there;
use crate::round_trip::active_values;
use crate::round_trip::keeps_len;
use crate::round_trip::lemma_exchanged;
use crate::round_trip::lemma_one_done;
use crate::round_trip::maps;
use crate::run::steps_run;
use crate::scalar::Complex;
use crate::scalar::FftReal;
use crate::scaled::exchanges_undone_scaled;
use crate::scaled::gains_from;
use crate::scaled::half_scaled;
use crate::scaled::law_mixed_crossing_scaled;
use crate::scaled::law_mixed_station_scaled;
use crate::scaled::law_prefix_station_scaled;
use crate::scaled::mixed_gain;
use crate::scaled::once_keeps;
use crate::scaled::prefix_gain;
use crate::scaled::returns_scaled;
use crate::scaled::scaled;
use crate::scaled::scaled_makes;
use crate::schedule::Itinerary;
use crate::schedule::Mode;
use crate::schedule::Slot;
use crate::schedule::exchange_step;
use crate::stages::LocalError;
use crate::transition::Passage;
use crate::walk::law_way_back_by;
use crate::walk::lemma_pieces_all_done;
use crate::walk::walked;

verus! {

/// How often the values of each stage come back: the length of a Fourier line, the normalization
/// factor of a real-to-real kernel, or once.
pub open spec fn mixed_r2c_gains<const N: usize, const M: usize>(core: MixedR2cCore<N, M>) -> Seq<int> {
    Seq::new(
        core.stages@.len(),
        |i: int|
            if i == core.boundary {
                core.plan().real_len as int
            } else {
                match core.locals@[i] {
                    MixedR2cStageLocal::Real(local) => prefix_gain(local),
                    MixedR2cStageLocal::Complex(local) => mixed_gain(local),
                }
            },
    )
}

/// The kernels and exchanges of the way back undo those of the way there up to the gains of the
/// stages, and the endpoint planes that the boundary makes need no clearing, times what they are.
pub open spec fn mixed_r2c_undone_scaled<R: FftReal, FR: Fn(&[R], usize) -> Result<Vec<R>, LocalError>, GR: Fn(&[R], usize) -> Result<Vec<R>, LocalError>, FX: Fn(&[R], usize) -> Result<Vec<Complex<R>>, LocalError>, GX: Fn(&[Complex<R>], usize) -> Result<Vec<R>, LocalError>, FC: Fn(&[Complex<R>], usize) -> Result<Vec<Complex<R>>, LocalError>, GC: Fn(&[Complex<R>], usize) -> Result<Vec<Complex<R>>, LocalError>, XR: Fn(usize, Passage, Load<R, N, M>) -> (Load<R, N, M>, Result<(), FftError>), ZR: Fn(usize, Passage, Load<R, N, M>) -> (Load<R, N, M>, Result<(), FftError>), XC: Fn(usize, Passage, Load<Complex<R>, N, M>) -> (Load<Complex<R>, N, M>, Result<(), FftError>), ZC: Fn(usize, Passage, Load<Complex<R>, N, M>) -> (Load<Complex<R>, N, M>, Result<(), FftError>), V: Inspector<R, MixedError, N, M>, const N: usize, const M: usize>(
    there: MixedR2cForwardCrew<R, FR, FX, FC, XR, XC, N, M>,
    home: MixedR2cReverseCrew<R, GR, GX, GC, ZR, ZC, V, N, M>,
    times: (spec_fn(int, R) -> R, spec_fn(int, Complex<R>) -> Complex<R>),
) -> bool {
    let plan = there.core.plan();
    &&& *home.core == *there.core
    &&& home.direction == Direction::Backward
    &&& lies_alike(there.core.stages@)
    &&& once_keeps(times.1)
    &&& once_keeps(times.0)
    &&& forall|i: int|
        0 <= i < there.core.boundary ==> returns_scaled::<R, R, LocalError, FR, GR>(
            #[trigger] there.prefixes@[i],
            home.prefixes@[i],
            (times.0, times.0),
            mixed_r2c_gains(*there.core)[i],
        ) && keeps_len::<R, R, LocalError, FR>(there.prefixes@[i]) && keeps_len::<R, R, LocalError, GR>(
            home.prefixes@[i],
        )
    &&& forall|i: int|
        there.core.boundary < i < there.kernels@.len() ==> returns_scaled::<Complex<R>, Complex<R>, LocalError, FC, GC>(
            #[trigger] there.kernels@[i],
            home.kernels@[i],
            (times.1, times.1),
            mixed_r2c_gains(*there.core)[i],
        ) && keeps_len::<Complex<R>, Complex<R>, LocalError, FC>(there.kernels@[i]) && keeps_len::<Complex<R>, Complex<R>, LocalError, GC>(
            home.kernels@[i],
        )
    &&& returns_scaled::<R, Complex<R>, LocalError, FX, GX>(
        *there.crossing,
        *home.crossing,
        times,
        plan.real_len as int,
    )
    &&& converts_lines::<R, Complex<R>, LocalError, FX>(
        *there.crossing,
        plan.real_len as int,
        plan.complex_len as int,
    )
    &&& converts_lines::<Complex<R>, R, LocalError, GX>(
        *home.crossing,
        plan.complex_len as int,
        plan.real_len as int,
    )
    &&& exchanges_undone_scaled::<R, XR, ZR, N, M>(
        *there.real_exchange,
        *home.real_exchange,
        there.core.transitions@,
        home.direction,
        times.0,
    )
    &&& exchanges_undone_scaled::<Complex<R>, XC, ZC, N, M>(
        *there.exchange,
        *home.exchange,
        there.core.transitions@,
        home.direction,
        times.1,
    )
    &&& clearing_keeps::<R, MixedError, V, N, M>(
        *home.inspector,
        scaled_makes(times.1, crossing_makes::<R, FX, N, M>(*there.core, *there.crossing)),
    )
}

proof fn lemma_move_scaled<R: FftReal, FR: Fn(&[R], usize) -> Result<Vec<R>, LocalError>, GR: Fn(&[R], usize) -> Result<Vec<R>, LocalError>, FX: Fn(&[R], usize) -> Result<Vec<Complex<R>>, LocalError>, GX: Fn(&[Complex<R>], usize) -> Result<Vec<R>, LocalError>, FC: Fn(&[Complex<R>], usize) -> Result<Vec<Complex<R>>, LocalError>, GC: Fn(&[Complex<R>], usize) -> Result<Vec<Complex<R>>, LocalError>, XR: Fn(usize, Passage, Load<R, N, M>) -> (Load<R, N, M>, Result<(), FftError>), ZR: Fn(usize, Passage, Load<R, N, M>) -> (Load<R, N, M>, Result<(), FftError>), XC: Fn(usize, Passage, Load<Complex<R>, N, M>) -> (Load<Complex<R>, N, M>, Result<(), FftError>), ZC: Fn(usize, Passage, Load<Complex<R>, N, M>) -> (Load<Complex<R>, N, M>, Result<(), FftError>), V: Inspector<R, MixedError, N, M>, const N: usize, const M: usize>(
    there: MixedR2cForwardCrew<R, FR, FX, FC, XR, XC, N, M>,
    home: MixedR2cReverseCrew<R, GR, GX, GC, ZR, ZC, V, N, M>,
    times: (spec_fn(int, R) -> R, spec_fn(int, Complex<R>) -> Complex<R>),
    route: Itinerary,
    mode: Mode,
    eager: (Seq<bool>, Seq<bool>),
    index: int,
    a: MixedR2cForwardTask<R, N, M>,
    b: MixedR2cForwardTask<R, N, M>,
    c: MixedR2cReverseTask<R, N, M>,
    d: MixedR2cReverseTask<R, N, M>,
)
    requires
        there.able(),
        home.able(),
        mixed_r2c_undone_scaled::<R, FR, GR, FX, GX, FC, GC, XR, ZR, XC, ZC, V, N, M>(there, home, times),
        route == there.core.itinerary(),
        route.wf(),
        mode != Mode::InPlace,
        route.stages == there.core.stages@.len(),
        0 <= index < route.moves(),
        all_done::<MixedR2cForwardTask<R, N, M>, MixedError, MixedR2cForwardCrew<R, FR, FX, FC, XR, XC, N, M>>(
            there,
            route.move_there(mode, index, eager.0),
            a,
            b,
        ),
        all_done::<MixedR2cReverseTask<R, N, M>, MixedError, MixedR2cReverseCrew<R, GR, GX, GC, ZR, ZC, V, N, M>>(
            home,
            route.move_home(mode, index, eager.1),
            c,
            d,
        ),
        seen_home(home, route.moves(), index + 1, c) == half_scaled(times, gains_from(mixed_r2c_gains(*there.core), (index + 2) / 2), seen_there(there, route.moves(), index + 1, b)),
    ensures
        seen_home(home, route.moves(), index, d) == half_scaled(times, gains_from(mixed_r2c_gains(*there.core), (index + 1) / 2), seen_there(there, route.moves(), index, a)),
{
    let stage = index / 2;
    let gains = mixed_r2c_gains(*there.core);
    let factor = gains_from(gains, stage + 1);
    assert(there.core.stages.len() == there.core.stages@.len());
    assert(there.core.locals@.len() == there.core.stages@.len());
    let edge = route.boundary as int;
    if index % 2 == 0 {
        assert(index == 2 * stage);
        assert(gains_from(gains, stage) == factor * gains[stage]);
        assert((index + 1) / 2 == stage && (index + 2) / 2 == stage + 1);
        assert(factor * 1 == factor);
        let out = lemma_stage_there(there, route, mode, eager.0, stage, a, b);
        let given = seen_there(there, route.moves(), index, a);
        let made = seen_there(there, route.moves(), index + 1, b);
        assert(there.core.stages@[stage].input.stride_along(there.core.stages@[stage].axis as int)
            == there.core.stages@[stage].output.stride_along(
            there.core.stages@[stage].axis as int,
        ));
        if stage == edge {
            let back = lemma_boundary_home(home, route, mode, eager.1, c, d);
            let crossing = there.core.spec_forward_crossing(there.crossing, out.1);
            assert(given is Real && made is Complex);
            assert(maps::<R, Complex<R>, MixedError, MixedForwardCrossing<FX, N, M>>(
                crossing,
                given->Real_0,
                made->Complex_0,
            ));
            let makes = crossing_makes::<R, FX, N, M>(*there.core, *there.crossing);
            assert(makes(made->Complex_0));
            assert(active_values(back.2) == scaled(times.1, factor, made->Complex_0));
            assert(scaled_makes(times.1, makes)(active_values(back.2)));
            assert(active_values(back.3) == active_values(back.2));
            law_mixed_crossing_scaled::<R, FX, GX, N, M>(
                crossing,
                home.core.spec_reverse_crossing(home.crossing, back.1),
                times,
                factor,
                given->Real_0,
                made->Complex_0,
                seen_home(home, route.moves(), index, d)->Real_0,
            );
        } else {
            let back = lemma_stage_home(home, route, mode, eager.1, stage, c, d);
            if stage > edge {
                law_mixed_station_scaled::<Complex<R>, FC, GC, N, M>(
                    there.core.spec_tail_station(Direction::Forward, out.0, &there.kernels@[stage]),
                    home.core.spec_tail_station(Direction::Inverse, back.0, &home.kernels@[stage]),
                    times.1,
                    factor,
                    given->Complex_0,
                    made->Complex_0,
                    seen_home(home, route.moves(), index, d)->Complex_0,
                );
            }
            if stage < edge {
                law_prefix_station_scaled::<R, FR, GR, N, M>(
                    there.core.spec_prefix_station(Direction::Forward, out.0, &there.prefixes@[stage]),
                    home.core.spec_prefix_station(Direction::Inverse, back.0, &home.prefixes@[stage]),
                    times.0,
                    factor,
                    given->Real_0,
                    made->Real_0,
                    seen_home(home, route.moves(), index, d)->Real_0,
                );
            }
        }
    } else {
        let at = route.carries_in(stage);
        let step = exchange_step(stage, at, mode, route.kind.spec_agrees());
        assert(index == 2 * stage + 1);
        assert((index + 1) / 2 == stage + 1 && (index + 2) / 2 == stage + 1);
        assert(route.move_there(mode, index, eager.0) =~= seq![step]);
        assert(route.move_home(mode, index, eager.1) =~= seq![step]);
        lemma_one_done::<MixedR2cForwardTask<R, N, M>, MixedError, MixedR2cForwardCrew<R, FR, FX, FC, XR, XC, N, M>>(there, step, a, b);
        lemma_one_done::<MixedR2cReverseTask<R, N, M>, MixedError, MixedR2cReverseCrew<R, GR, GX, GC, ZR, ZC, V, N, M>>(home, step, c, d);
        let (la, lb) = (mixed_half_load(a.1), mixed_half_load(b.1));
        let (lc, ld) = (mixed_half_load(c.1), mixed_half_load(d.1));
        if at == Slot::Real {
            let sent = (lb.reals->0, lb.real_buffers->0);
            let returned = (lc.reals->0, lc.real_buffers->0);
            lemma_exchanged::<R, MixedError, XR, N, M>(
                *there.real_exchange,
                there.core.transitions@,
                Direction::Forward,
                stage as usize,
                (la.reals->0, la.real_buffers->0),
                sent,
            );
            lemma_exchanged::<R, MixedError, ZR, N, M>(
                *home.real_exchange,
                home.core.transitions@,
                home.direction,
                stage as usize,
                returned,
                (ld.reals->0, ld.real_buffers->0),
            );
            assert(active_values(returned.0) == scaled(times.0, factor, active_values(sent.0)));
        } else {
            let sent = (lb.complexes, lb.buffers);
            let returned = (lc.complexes, lc.buffers);
            lemma_exchanged::<Complex<R>, MixedError, XC, N, M>(
                *there.exchange,
                there.core.transitions@,
                Direction::Forward,
                stage as usize,
                (la.complexes, la.buffers),
                sent,
            );
            lemma_exchanged::<Complex<R>, MixedError, ZC, N, M>(
                *home.exchange,
                home.core.transitions@,
                home.direction,
                stage as usize,
                returned,
                (ld.complexes, ld.buffers),
            );
            assert(active_values(returned.0) == scaled(times.1, factor, active_values(sent.0)));
        }
    }
}

/// The steps of a forward execution of a mixed real-to-complex plan, with overlap or without, and
/// of its way back without normalization give back the values times the product of the gains of all
/// stages.
pub proof fn law_mixed_r2c_steps_scaled<R: FftReal, FR: Fn(&[R], usize) -> Result<Vec<R>, LocalError>, GR: Fn(&[R], usize) -> Result<Vec<R>, LocalError>, FX: Fn(&[R], usize) -> Result<Vec<Complex<R>>, LocalError>, GX: Fn(&[Complex<R>], usize) -> Result<Vec<R>, LocalError>, FC: Fn(&[Complex<R>], usize) -> Result<Vec<Complex<R>>, LocalError>, GC: Fn(&[Complex<R>], usize) -> Result<Vec<Complex<R>>, LocalError>, XR: Fn(usize, Passage, Load<R, N, M>) -> (Load<R, N, M>, Result<(), FftError>), ZR: Fn(usize, Passage, Load<R, N, M>) -> (Load<R, N, M>, Result<(), FftError>), XC: Fn(usize, Passage, Load<Complex<R>, N, M>) -> (Load<Complex<R>, N, M>, Result<(), FftError>), ZC: Fn(usize, Passage, Load<Complex<R>, N, M>) -> (Load<Complex<R>, N, M>, Result<(), FftError>), V: Inspector<R, MixedError, N, M>, const N: usize, const M: usize>(
    there: MixedR2cForwardCrew<R, FR, FX, FC, XR, XC, N, M>,
    home: MixedR2cReverseCrew<R, GR, GX, GC, ZR, ZC, V, N, M>,
    times: (spec_fn(int, R) -> R, spec_fn(int, Complex<R>) -> Complex<R>),
    mode: Mode,
    eager: (Seq<bool>, Seq<bool>),
    start: MixedR2cForwardTask<R, N, M>,
    turn: MixedR2cForwardTask<R, N, M>,
    from: MixedR2cReverseTask<R, N, M>,
    end: MixedR2cReverseTask<R, N, M>,
)
    requires
        mode != Mode::InPlace,
        there.able(),
        home.able(),
        mixed_r2c_undone_scaled::<R, FR, GR, FX, GX, FC, GC, XR, ZR, XC, ZC, V, N, M>(there, home, times),
        all_done::<MixedR2cForwardTask<R, N, M>, MixedError, MixedR2cForwardCrew<R, FR, FX, FC, XR, XC, N, M>>(
            there,
            there.core.itinerary().list(Direction::Forward, mode, eager.0),
            start,
            turn,
        ),
        home.source.data@ == turn.0.data@,
        all_done::<MixedR2cReverseTask<R, N, M>, MixedError, MixedR2cReverseCrew<R, GR, GX, GC, ZR, ZC, V, N, M>>(
            home,
            there.core.itinerary().list(home.direction, mode, eager.1),
            from,
            end,
        ),
    ensures
        end.0.data@ == scaled(times.0, gains_from(mixed_r2c_gains(*there.core), 0), there.source.data@),
{
    let route = there.core.itinerary();
    let gains = mixed_r2c_gains(*there.core);
    assert(there.core.stages.len() == there.core.stages@.len());
    assert(there.core.locals@.len() == there.core.stages@.len());
    route.lemma_forward_walks::<MixedR2cForwardTask<R, N, M>, MixedError, MixedR2cForwardCrew<R, FR, FX, FC, XR, XC, N, M>>(there, mode, eager.0, start, turn);
    route.lemma_reverse_walks::<MixedR2cReverseTask<R, N, M>, MixedError, MixedR2cReverseCrew<R, GR, GX, GC, ZR, ZC, V, N, M>>(home, mode, eager.1, from, end);
    let makes_there = route.makes_there::<MixedR2cForwardTask<R, N, M>, MixedError, MixedR2cForwardCrew<R, FR, FX, FC, XR, XC, N, M>>(there, mode, eager.0);
    let makes_home = route.makes_home::<MixedR2cReverseTask<R, N, M>, MixedError, MixedR2cReverseCrew<R, GR, GX, GC, ZR, ZC, V, N, M>>(home, mode, eager.1);
    let moves = route.moves();
    let related = |index: int, c: MixedR2cReverseTask<R, N, M>, b: MixedR2cForwardTask<R, N, M>|
        seen_home(home, moves, index, c) == half_scaled(times, gains_from(gains, (index + 1) / 2), seen_there(there, moves, index, b));
    assert forall|index: int, a: MixedR2cForwardTask<R, N, M>, b: MixedR2cForwardTask<R, N, M>, c: MixedR2cReverseTask<R, N, M>, d: MixedR2cReverseTask<R, N, M>|
        0 <= index < moves && #[trigger] walked(makes_there, index, a, b) && #[trigger] walked(
            makes_home,
            index,
            c,
            d,
        ) && related(index + 1, c, b) implies related(index, d, a) by {
        lemma_move_scaled::<R, FR, GR, FX, GX, FC, GC, XR, ZR, XC, ZC, V, N, M>(there, home, times, route, mode, eager, index, a, b, c, d);
    }
    assert(gains_from(gains, (moves + 1) / 2) == 1);
    assert(scaled(times.1, 1, turn.0.data@) =~= turn.0.data@);
    assert(related(moves, from, turn));
    law_way_back_by(makes_there, makes_home, related, moves, start, turn, from, end);
    assert(related(0, end, start));
}

/// A forward execution of a mixed real-to-complex plan out of place and its way back without
/// normalization give back the values times the product of the gains of all stages, with kernels
/// that lead back to multiples and exchanges that undo those of the first, where the endpoint
/// planes that the boundary makes need no clearing.
pub proof fn law_mixed_r2c_backward_scales<R: FftReal, FR: Fn(&[R], usize) -> Result<Vec<R>, LocalError>, GR: Fn(&[R], usize) -> Result<Vec<R>, LocalError>, FX: Fn(&[R], usize) -> Result<Vec<Complex<R>>, LocalError>, GX: Fn(&[Complex<R>], usize) -> Result<Vec<R>, LocalError>, FC: Fn(&[Complex<R>], usize) -> Result<Vec<Complex<R>>, LocalError>, GC: Fn(&[Complex<R>], usize) -> Result<Vec<Complex<R>>, LocalError>, XR: Fn(usize, Passage, Load<R, N, M>) -> (Load<R, N, M>, Result<(), FftError>), ZR: Fn(usize, Passage, Load<R, N, M>) -> (Load<R, N, M>, Result<(), FftError>), XC: Fn(usize, Passage, Load<Complex<R>, N, M>) -> (Load<Complex<R>, N, M>, Result<(), FftError>), ZC: Fn(usize, Passage, Load<Complex<R>, N, M>) -> (Load<Complex<R>, N, M>, Result<(), FftError>), V: Inspector<R, MixedError, N, M>, A: Fn(bool) -> bool, B: Fn(bool) -> bool, const N: usize, const M: usize>(
    there: MixedR2cForwardCrew<R, FR, FX, FC, XR, XC, N, M>,
    home: MixedR2cReverseCrew<R, GR, GX, GC, ZR, ZC, V, N, M>,
    times: (spec_fn(int, R) -> R, spec_fn(int, Complex<R>) -> Complex<R>),
    agree: (A, B),
    eager: (Seq<bool>, Seq<bool>),
    start: MixedR2cForwardTask<R, N, M>,
    turn: MixedR2cForwardTask<R, N, M>,
    from: MixedR2cReverseTask<R, N, M>,
    end: MixedR2cReverseTask<R, N, M>,
)
    requires
        there.able(),
        home.able(),
        mixed_r2c_undone_scaled::<R, FR, GR, FX, GX, FC, GC, XR, ZR, XC, ZC, V, N, M>(there, home, times),
        steps_run::<MixedR2cForwardTask<R, N, M>, MixedError, InTurn<MixedR2cForwardCrew<R, FR, FX, FC, XR, XC, N, M>>, A>(
            InTurn { crew: &there },
            agree.0,
            there.core.itinerary().list(Direction::Forward, Mode::OutOfPlace, eager.0),
            start,
            turn,
            Ok(()),
        ),
        home.source.data@ == turn.0.data@,
        steps_run::<MixedR2cReverseTask<R, N, M>, MixedError, InTurn<MixedR2cReverseCrew<R, GR, GX, GC, ZR, ZC, V, N, M>>, B>(
            InTurn { crew: &home },
            agree.1,
            there.core.itinerary().list(home.direction, Mode::OutOfPlace, eager.1),
            from,
            end,
            Ok(()),
        ),
    ensures
        end.0.data@ == scaled(times.0, gains_from(mixed_r2c_gains(*there.core), 0), there.source.data@),
{
    let route = there.core.itinerary();
    let out = route.forward_list(Mode::OutOfPlace, eager.0);
    let back = route.reverse_list(Mode::OutOfPlace, eager.1);
    lemma_pieces_all_done::<MixedR2cForwardTask<R, N, M>, MixedError, MixedR2cForwardCrew<R, FR, FX, FC, XR, XC, N, M>, A>(there, agree.0, out, out.len() as int, start, turn);
    lemma_pieces_all_done::<MixedR2cReverseTask<R, N, M>, MixedError, MixedR2cReverseCrew<R, GR, GX, GC, ZR, ZC, V, N, M>, B>(home, agree.1, back, back.len() as int, from, end);
    assert(out.take(out.len() as int) =~= out);
    assert(back.take(back.len() as int) =~= back);
    law_mixed_r2c_steps_scaled::<R, FR, GR, FX, GX, FC, GC, XR, ZR, XC, ZC, V, N, M>(there, home, times, Mode::OutOfPlace, eager, start, turn, from, end);
}

} // verus!
