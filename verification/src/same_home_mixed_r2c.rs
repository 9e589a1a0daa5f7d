//! A reverse execution of a mixed real-to-complex plan with overlap makes what one without it makes.

use vstd::prelude::*;

use crate::alike::clearings_alike;
use crate::alike::exchanges_alike;
use crate::alike::kernels_alike;
use crate::alike::law_mixed_reverse_crossing_alike;
use crate::alike::law_mixed_station_alike;
use crate::alike::law_prefix_station_alike;
use crate::alike::makes_alike;
use crate::carrier::Load;
use crate::crew::Crew;
use crate::crew::InTurn;
use crate::crew::all_done;
use crate::crew::lemma_same_steps;
use crate::crew_mixed_r2c::MixedR2cReverseCrew;
use crate::crew_mixed_r2c::MixedR2cReverseOverlapCrew;
use crate::crew_mixed_r2c::MixedR2cReverseTask;
use crate::crew_mixed_r2c::mixed_half_load;
use crate::error::FftError;
use crate::error::MixedError;
use crate::error::OverlapError;
use crate::inspect::Inspector;
use crate::layout::Direction;
use crate::round_mixed_r2c::lemma_boundary_home;
use crate::round_mixed_r2c::lemma_stage_home;
use crate::round_mixed_r2c::seen_home;
use crate::round_trip::active_values;
use crate::round_trip::lemma_exchanged;
use crate::round_trip::lemma_one_done;
use crate::run::steps_run;
use crate::scalar::Complex;
use crate::scalar::FftReal;
use crate::schedule::Itinerary;
use crate::schedule::Mode;
use crate::schedule::Slot;
use crate::schedule::exchange_step;
use crate::stages::LocalError;
use crate::transition::Passage;
use crate::walk::law_overlap_does_steps;
use crate::walk::law_same_way_back;
use crate::walk::lemma_pieces_all_done;
use crate::walk::ran_overlapped;
use crate::walk::walked;

verus! {

/// Two crews execute the same plan back, with kernels and exchanges that make the same; they clear
/// the same of the endpoint planes.
pub open spec fn mixed_r2c_home_alike<R: FftReal, FR: Fn(&[R], usize) -> Result<Vec<R>, LocalError>, GR: Fn(&[R], usize) -> Result<Vec<R>, LocalError>, FX: Fn(&[Complex<R>], usize) -> Result<Vec<R>, LocalError>, GX: Fn(&[Complex<R>], usize) -> Result<Vec<R>, LocalError>, FC: Fn(&[Complex<R>], usize) -> Result<Vec<Complex<R>>, LocalError>, GC: Fn(&[Complex<R>], usize) -> Result<Vec<Complex<R>>, LocalError>, XR: Fn(usize, Passage, Load<R, N, M>) -> (Load<R, N, M>, Result<(), FftError>), ZR: Fn(usize, Passage, Load<R, N, M>) -> (Load<R, N, M>, Result<(), FftError>), XC: Fn(usize, Passage, Load<Complex<R>, N, M>) -> (Load<Complex<R>, N, M>, Result<(), FftError>), ZC: Fn(usize, Passage, Load<Complex<R>, N, M>) -> (Load<Complex<R>, N, M>, Result<(), FftError>), V: Inspector<R, MixedError, N, M>, W: Inspector<R, MixedError, N, M>, const N: usize, const M: usize>(
    left: MixedR2cReverseCrew<R, FR, FX, FC, XR, XC, V, N, M>,
    right: MixedR2cReverseCrew<R, GR, GX, GC, ZR, ZC, W, N, M>,
) -> bool {
    &&& *right.core == *left.core
    &&& left.direction != Direction::Forward
    &&& right.direction == left.direction
    &&& kernels_alike::<R, R, LocalError, FR, GR>(left.prefixes@, right.prefixes@)
    &&& makes_alike::<Complex<R>, R, LocalError, FX, GX>(*left.crossing, *right.crossing)
    &&& kernels_alike::<Complex<R>, Complex<R>, LocalError, FC, GC>(left.kernels@, right.kernels@)
    &&& clearings_alike::<R, MixedError, V, W, N, M>(*left.inspector, *right.inspector)
    &&& exchanges_alike::<R, XR, ZR, N, M>(
        *left.real_exchange,
        *right.real_exchange,
        left.core.transitions@,
        left.direction,
    )
    &&& exchanges_alike::<Complex<R>, XC, ZC, N, M>(
        *left.exchange,
        *right.exchange,
        left.core.transitions@,
        left.direction,
    )
}

proof fn lemma_move_home_alike<R: FftReal, FR: Fn(&[R], usize) -> Result<Vec<R>, LocalError>, GR: Fn(&[R], usize) -> Result<Vec<R>, LocalError>, FX: Fn(&[Complex<R>], usize) -> Result<Vec<R>, LocalError>, GX: Fn(&[Complex<R>], usize) -> Result<Vec<R>, LocalError>, FC: Fn(&[Complex<R>], usize) -> Result<Vec<Complex<R>>, LocalError>, GC: Fn(&[Complex<R>], usize) -> Result<Vec<Complex<R>>, LocalError>, XR: Fn(usize, Passage, Load<R, N, M>) -> (Load<R, N, M>, Result<(), FftError>), ZR: Fn(usize, Passage, Load<R, N, M>) -> (Load<R, N, M>, Result<(), FftError>), XC: Fn(usize, Passage, Load<Complex<R>, N, M>) -> (Load<Complex<R>, N, M>, Result<(), FftError>), ZC: Fn(usize, Passage, Load<Complex<R>, N, M>) -> (Load<Complex<R>, N, M>, Result<(), FftError>), V: Inspector<R, MixedError, N, M>, W: Inspector<R, MixedError, N, M>, const N: usize, const M: usize>(
    left: MixedR2cReverseCrew<R, FR, FX, FC, XR, XC, V, N, M>,
    right: MixedR2cReverseCrew<R, GR, GX, GC, ZR, ZC, W, N, M>,
    route: Itinerary,
    modes: (Mode, Mode),
    eager: (Seq<bool>, Seq<bool>),
    index: int,
    a: MixedR2cReverseTask<R, N, M>,
    b: MixedR2cReverseTask<R, N, M>,
    c: MixedR2cReverseTask<R, N, M>,
    d: MixedR2cReverseTask<R, N, M>,
)
    requires
        left.able(),
        right.able(),
        mixed_r2c_home_alike::<R, FR, GR, FX, GX, FC, GC, XR, ZR, XC, ZC, V, W, N, M>(left, right),
        route == left.core.itinerary(),
        route.wf(),
        modes.0 != Mode::InPlace,
        modes.1 != Mode::InPlace,
        route.stages == left.core.stages@.len(),
        0 <= index < route.moves(),
        all_done::<MixedR2cReverseTask<R, N, M>, MixedError, MixedR2cReverseCrew<R, FR, FX, FC, XR, XC, V, N, M>>(
            left,
            route.move_home(modes.0, index, eager.0),
            a,
            b,
        ),
        all_done::<MixedR2cReverseTask<R, N, M>, MixedError, MixedR2cReverseCrew<R, GR, GX, GC, ZR, ZC, W, N, M>>(
            right,
            route.move_home(modes.1, index, eager.1),
            c,
            d,
        ),
        seen_home(left, route.moves(), index + 1, a) == seen_home(right, route.moves(), index + 1, c),
    ensures
        seen_home(left, route.moves(), index, b) == seen_home(right, route.moves(), index, d),
{
    let stage = index / 2;
    let edge = route.boundary as int;
    if index % 2 == 0 {
        assert(index == 2 * stage);
        if stage == edge {
            let one = lemma_boundary_home(left, route, modes.0, eager.0, a, b);
            let two = lemma_boundary_home(right, route, modes.1, eager.1, c, d);
            assert(left.inspector.clears(one.2, one.3, Ok(())));
            assert(active_values(one.3) == active_values(two.3));
            law_mixed_reverse_crossing_alike::<R, FX, GX, N, M>(
                left.core.spec_reverse_crossing(left.crossing, one.1),
                right.core.spec_reverse_crossing(right.crossing, two.1),
            );
        } else {
            let one = lemma_stage_home(left, route, modes.0, eager.0, stage, a, b);
            let two = lemma_stage_home(right, route, modes.1, eager.1, stage, c, d);
            if stage > edge {
                law_mixed_station_alike::<Complex<R>, FC, GC, N, M>(
                    left.core.spec_tail_station(Direction::Inverse, one.0, &left.kernels@[stage]),
                    right.core.spec_tail_station(Direction::Inverse, two.0, &right.kernels@[stage]),
                );
            } else {
                law_prefix_station_alike::<R, FR, GR, N, M>(
                    left.core.spec_prefix_station(Direction::Inverse, one.0, &left.prefixes@[stage]),
                    right.core.spec_prefix_station(Direction::Inverse, two.0, &right.prefixes@[stage]),
                );
            }
        }
    } else {
        let at = route.carries_in(stage);
        let step_left = exchange_step(stage, at, modes.0, route.kind.spec_agrees());
        let step_right = exchange_step(stage, at, modes.1, route.kind.spec_agrees());
        assert(index == 2 * stage + 1);
        assert(route.move_home(modes.0, index, eager.0) =~= seq![step_left]);
        lemma_one_done::<MixedR2cReverseTask<R, N, M>, MixedError, MixedR2cReverseCrew<R, FR, FX, FC, XR, XC, V, N, M>>(left, step_left, a, b);
        assert(route.move_home(modes.1, index, eager.1) =~= seq![step_right]);
        lemma_one_done::<MixedR2cReverseTask<R, N, M>, MixedError, MixedR2cReverseCrew<R, GR, GX, GC, ZR, ZC, W, N, M>>(right, step_right, c, d);
        let (la, lb) = (mixed_half_load(a.1), mixed_half_load(b.1));
        let (lc, ld) = (mixed_half_load(c.1), mixed_half_load(d.1));
        if at == Slot::Real {
            lemma_exchanged::<R, MixedError, XR, N, M>(
                *left.real_exchange,
                left.core.transitions@,
                left.direction,
                stage as usize,
                (la.reals->0, la.real_buffers->0),
                (lb.reals->0, lb.real_buffers->0),
            );
            lemma_exchanged::<R, MixedError, ZR, N, M>(
                *right.real_exchange,
                right.core.transitions@,
                right.direction,
                stage as usize,
                (lc.reals->0, lc.real_buffers->0),
                (ld.reals->0, ld.real_buffers->0),
            );
        } else {
            lemma_exchanged::<Complex<R>, MixedError, XC, N, M>(
                *left.exchange,
                left.core.transitions@,
                left.direction,
                stage as usize,
                (la.complexes, la.buffers),
                (lb.complexes, lb.buffers),
            );
            lemma_exchanged::<Complex<R>, MixedError, ZC, N, M>(
                *right.exchange,
                right.core.transitions@,
                right.direction,
                stage as usize,
                (lc.complexes, lc.buffers),
                (ld.complexes, ld.buffers),
            );
        }
    }
}

/// The steps of two reverse executions of the same values make the same, with overlap or without.
pub proof fn law_mixed_r2c_home_steps_alike<R: FftReal, FR: Fn(&[R], usize) -> Result<Vec<R>, LocalError>, GR: Fn(&[R], usize) -> Result<Vec<R>, LocalError>, FX: Fn(&[Complex<R>], usize) -> Result<Vec<R>, LocalError>, GX: Fn(&[Complex<R>], usize) -> Result<Vec<R>, LocalError>, FC: Fn(&[Complex<R>], usize) -> Result<Vec<Complex<R>>, LocalError>, GC: Fn(&[Complex<R>], usize) -> Result<Vec<Complex<R>>, LocalError>, XR: Fn(usize, Passage, Load<R, N, M>) -> (Load<R, N, M>, Result<(), FftError>), ZR: Fn(usize, Passage, Load<R, N, M>) -> (Load<R, N, M>, Result<(), FftError>), XC: Fn(usize, Passage, Load<Complex<R>, N, M>) -> (Load<Complex<R>, N, M>, Result<(), FftError>), ZC: Fn(usize, Passage, Load<Complex<R>, N, M>) -> (Load<Complex<R>, N, M>, Result<(), FftError>), V: Inspector<R, MixedError, N, M>, W: Inspector<R, MixedError, N, M>, const N: usize, const M: usize>(
    left: MixedR2cReverseCrew<R, FR, FX, FC, XR, XC, V, N, M>,
    right: MixedR2cReverseCrew<R, GR, GX, GC, ZR, ZC, W, N, M>,
    modes: (Mode, Mode),
    eager: (Seq<bool>, Seq<bool>),
    start: MixedR2cReverseTask<R, N, M>,
    end: MixedR2cReverseTask<R, N, M>,
    from: MixedR2cReverseTask<R, N, M>,
    to: MixedR2cReverseTask<R, N, M>,
)
    requires
        left.able(),
        right.able(),
        mixed_r2c_home_alike::<R, FR, GR, FX, GX, FC, GC, XR, ZR, XC, ZC, V, W, N, M>(left, right),
        modes.0 != Mode::InPlace,
        modes.1 != Mode::InPlace,
        left.source.data@ == right.source.data@,
        all_done::<MixedR2cReverseTask<R, N, M>, MixedError, MixedR2cReverseCrew<R, FR, FX, FC, XR, XC, V, N, M>>(
            left,
            left.core.itinerary().list(left.direction, modes.0, eager.0),
            start,
            end,
        ),
        all_done::<MixedR2cReverseTask<R, N, M>, MixedError, MixedR2cReverseCrew<R, GR, GX, GC, ZR, ZC, W, N, M>>(
            right,
            left.core.itinerary().list(left.direction, modes.1, eager.1),
            from,
            to,
        ),
    ensures
        end.0.data@ == to.0.data@,
{
    let route = left.core.itinerary();
    assert(left.core.stages.len() == left.core.stages@.len());
    route.lemma_reverse_walks::<MixedR2cReverseTask<R, N, M>, MixedError, MixedR2cReverseCrew<R, FR, FX, FC, XR, XC, V, N, M>>(
        left,
        modes.0,
        eager.0,
        start,
        end,
    );
    route.lemma_reverse_walks::<MixedR2cReverseTask<R, N, M>, MixedError, MixedR2cReverseCrew<R, GR, GX, GC, ZR, ZC, W, N, M>>(
        right,
        modes.1,
        eager.1,
        from,
        to,
    );
    let makes_left = route.makes_home::<MixedR2cReverseTask<R, N, M>, MixedError, MixedR2cReverseCrew<R, FR, FX, FC, XR, XC, V, N, M>>(left, modes.0, eager.0);
    let makes_right = route.makes_home::<MixedR2cReverseTask<R, N, M>, MixedError, MixedR2cReverseCrew<R, GR, GX, GC, ZR, ZC, W, N, M>>(right, modes.1, eager.1);
    let moves = route.moves();
    let related = |index: int, one: MixedR2cReverseTask<R, N, M>, two: MixedR2cReverseTask<R, N, M>| seen_home(left, moves, index, one) == seen_home(right, moves, index, two);
    assert forall|index: int, a: MixedR2cReverseTask<R, N, M>, b: MixedR2cReverseTask<R, N, M>, c: MixedR2cReverseTask<R, N, M>, d: MixedR2cReverseTask<R, N, M>|
        0 <= index < moves && #[trigger] walked(makes_left, index, a, b) && #[trigger] walked(
            makes_right,
            index,
            c,
            d,
        ) && related(index + 1, a, c) implies related(index, b, d) by {
        lemma_move_home_alike::<R, FR, GR, FX, GX, FC, GC, XR, ZR, XC, ZC, V, W, N, M>(left, right, route, modes, eager, index, a, b, c, d);
    }
    law_same_way_back(makes_left, makes_right, related, moves, start, end, from, to);
    assert(related(0, end, to));
}

/// A reverse execution of a mixed real-to-complex plan with overlap makes of the same values what
/// one without overlap makes, where the kernels and exchanges of both make the same, they clear the
/// same of the endpoint planes, and work inside an exchange comes to work behind it. Both succeed;
/// whether the exchanges do rests on other processes.
pub proof fn law_mixed_r2c_overlap_home_is_plain<R: FftReal, FR: Fn(&[R], usize) -> Result<Vec<R>, LocalError>, GR: Fn(&[R], usize) -> Result<Vec<R>, LocalError>, FX: Fn(&[Complex<R>], usize) -> Result<Vec<R>, LocalError>, GX: Fn(&[Complex<R>], usize) -> Result<Vec<R>, LocalError>, FC: Fn(&[Complex<R>], usize) -> Result<Vec<Complex<R>>, LocalError>, GC: Fn(&[Complex<R>], usize) -> Result<Vec<Complex<R>>, LocalError>, XR: Fn(usize, Passage, Load<R, N, M>) -> (Load<R, N, M>, Result<(), FftError>), ZR: Fn(usize, Passage, Load<R, N, M>) -> (Load<R, N, M>, Result<(), FftError>), XC: Fn(usize, Passage, Load<Complex<R>, N, M>) -> (Load<Complex<R>, N, M>, Result<(), FftError>), ZC: Fn(usize, Passage, Load<Complex<R>, N, M>) -> (Load<Complex<R>, N, M>, Result<(), FftError>), V: Inspector<R, MixedError, N, M>, W: Inspector<R, MixedError, N, M>, YR: Fn(usize, Direction, Option<bool>, Load<R, N, M>) -> (Load<R, N, M>, Result<(), OverlapError<MixedError>>), YC: Fn(usize, Direction, Option<bool>, Load<Complex<R>, N, M>) -> (Load<Complex<R>, N, M>, Result<(), OverlapError<MixedError>>), A: Fn(bool) -> bool, B: Fn(bool) -> bool, const N: usize, const M: usize>(
    plain: MixedR2cReverseCrew<R, FR, FX, FC, XR, XC, V, N, M>,
    overlapped: MixedR2cReverseOverlapCrew<R, GR, GX, GC, ZR, ZC, W, YR, YC, N, M>,
    agree: (A, B),
    eager: (Seq<bool>, Seq<bool>),
    start: MixedR2cReverseTask<R, N, M>,
    end: MixedR2cReverseTask<R, N, M>,
    from: MixedR2cReverseTask<R, N, M>,
    to: MixedR2cReverseTask<R, N, M>,
)
    requires
        plain.able(),
        mixed_r2c_home_alike::<R, FR, GR, FX, GX, FC, GC, XR, ZR, XC, ZC, V, W, N, M>(plain, overlapped.crew),
        plain.source.data@ == overlapped.crew.source.data@,
        steps_run::<MixedR2cReverseTask<R, N, M>, MixedError, InTurn<MixedR2cReverseCrew<R, FR, FX, FC, XR, XC, V, N, M>>, A>(
            InTurn { crew: &plain },
            agree.0,
            plain.core.itinerary().list(plain.direction, Mode::OutOfPlace, eager.0),
            start,
            end,
            Ok(()),
        ),
        ran_overlapped::<MixedR2cReverseTask<R, N, M>, MixedError, MixedR2cReverseOverlapCrew<R, GR, GX, GC, ZR, ZC, W, YR, YC, N, M>, B>(
            overlapped,
            agree.1,
            plain.core.itinerary().list(plain.direction, Mode::Overlap, eager.1),
            from,
            to,
        ),
    ensures
        to.0.data@ == end.0.data@,
{
    let route = plain.core.itinerary();
    let one = route.reverse_list(Mode::OutOfPlace, eager.0);
    let two = route.reverse_list(Mode::Overlap, eager.1);
    lemma_pieces_all_done::<MixedR2cReverseTask<R, N, M>, MixedError, MixedR2cReverseCrew<R, FR, FX, FC, XR, XC, V, N, M>, A>(
        plain,
        agree.0,
        one,
        one.len() as int,
        start,
        end,
    );
    assert(one.take(one.len() as int) =~= one);
    law_overlap_does_steps::<MixedR2cReverseTask<R, N, M>, MixedError, MixedR2cReverseOverlapCrew<R, GR, GX, GC, ZR, ZC, W, YR, YC, N, M>, B>(
        overlapped,
        agree.1,
        two,
        two.len() as int,
        from,
        to,
    );
    assert(two.take(two.len() as int) =~= two);
    lemma_same_steps::<MixedR2cReverseTask<R, N, M>, MixedError, MixedR2cReverseOverlapCrew<R, GR, GX, GC, ZR, ZC, W, YR, YC, N, M>, MixedR2cReverseCrew<R, GR, GX, GC, ZR, ZC, W, N, M>>(overlapped, overlapped.crew, two, from, to);
    law_mixed_r2c_home_steps_alike::<R, FR, GR, FX, GX, FC, GC, XR, ZR, XC, ZC, V, W, N, M>(
        plain,
        overlapped.crew,
        (Mode::OutOfPlace, Mode::Overlap),
        eager,
        start,
        end,
        from,
        to,
    );
}

} // verus!
