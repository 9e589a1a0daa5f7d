//! A reverse execution of a real-to-complex plan with overlap makes what one without it makes.

use vstd::prelude::*;

use crate::alike::clearing_crosses;
use crate::alike::clearings_alike;
use crate::alike::exchanges_alike;
use crate::alike::kernels_alike;
use crate::alike::law_reverse_crossing_alike;
use crate::alike::law_tail_station_alike;
use crate::alike::makes_alike;
use crate::array::ManyPencilArray;
use crate::carrier::Load;
use crate::crew::Crew;
use crate::crew::InTurn;
use crate::crew::all_done;
use crate::crew::lemma_same_steps;
use crate::crew_r2c::R2cReverseCrew;
use crate::crew_r2c::R2cReverseOverlapCrew;
use crate::crew_r2c::R2cReverseTask;
use crate::crew_r2c::half_load;
use crate::error::FftError;
use crate::error::LocalC2cError;
use crate::error::LocalR2cError;
use crate::error::OverlapError;
use crate::error::R2cError;
use crate::inspect::Inspector;
use crate::layout::Direction;
use crate::round_r2c::lemma_boundary_home;
use crate::round_r2c::lemma_stage_home;
use crate::round_r2c::seen_home;
use crate::round_trip::active_values;
use crate::round_trip::lemma_exchanged;
use crate::round_trip::lemma_one_done;
use crate::round_trip::lemma_two_done;
use crate::run::steps_run;
use crate::scalar::Complex;
use crate::scalar::FftReal;
use crate::schedule::Itinerary;
use crate::schedule::Mode;
use crate::schedule::Slot;
use crate::schedule::Work;
use crate::schedule::endpoint_step;
use crate::schedule::exchange_step;
use crate::transition::Passage;
use crate::walk::law_overlap_does_steps;
use crate::walk::law_same_way_back;
use crate::walk::lemma_all_done_split;
use crate::walk::lemma_pieces_all_done;
use crate::walk::ran_overlapped;
use crate::walk::walked;

verus! {

/// Two crews execute the same plan back, with kernels and exchanges that make the same; they clear
/// the same of the endpoint planes, on whichever side of the exchange that leads to the boundary.
pub open spec fn r2c_home_alike<R: FftReal, FX: Fn(&[Complex<R>], usize) -> Result<Vec<R>, LocalR2cError>, GX: Fn(&[Complex<R>], usize) -> Result<Vec<R>, LocalR2cError>, FC: Fn(&[Complex<R>], usize) -> Result<Vec<Complex<R>>, LocalC2cError>, GC: Fn(&[Complex<R>], usize) -> Result<Vec<Complex<R>>, LocalC2cError>, XR: Fn(usize, Passage, Load<R, N, M>) -> (Load<R, N, M>, Result<(), FftError>), ZR: Fn(usize, Passage, Load<R, N, M>) -> (Load<R, N, M>, Result<(), FftError>), XC: Fn(usize, Passage, Load<Complex<R>, N, M>) -> (Load<Complex<R>, N, M>, Result<(), FftError>), ZC: Fn(usize, Passage, Load<Complex<R>, N, M>) -> (Load<Complex<R>, N, M>, Result<(), FftError>), V: Inspector<R, R2cError, N, M>, W: Inspector<R, R2cError, N, M>, const N: usize, const M: usize>(
    left: R2cReverseCrew<R, FX, FC, XR, XC, V, N, M>,
    right: R2cReverseCrew<R, GX, GC, ZR, ZC, W, N, M>,
) -> bool {
    &&& *right.core == *left.core
    &&& left.direction != Direction::Forward
    &&& right.direction == left.direction
    &&& makes_alike::<Complex<R>, R, LocalR2cError, FX, GX>(*left.crossing, *right.crossing)
    &&& kernels_alike::<Complex<R>, Complex<R>, LocalC2cError, FC, GC>(left.kernels@, right.kernels@)
    &&& clearings_alike::<R, R2cError, V, W, N, M>(*left.inspector, *right.inspector)
    &&& clearing_crosses::<R, R2cError, XC, ZC, V, W, N, M>(
        (*left.exchange, *right.exchange),
        (*left.inspector, *right.inspector),
        left.core.boundary,
        left.core.transitions@[left.core.boundary as int].spec_passage(left.direction),
    )
    &&& exchanges_alike::<R, XR, ZR, N, M>(
        *left.real_exchange,
        *right.real_exchange,
        left.core.transitions@,
        left.direction,
    )
    &&& exchanges_alike::<Complex<R>, XC, ZC, N, M>(
        *left.exchange,
        *right.exchange,
        left.core.transitions@,
        left.direction,
    )
}

/// What two executions hold in front of the move with this index is the same; where one of them
/// clears the endpoint planes in front of the exchange that leads to the boundary, it holds what the
/// other one holds once it has cleared them.
pub open spec fn same_home<R: FftReal, FX: Fn(&[Complex<R>], usize) -> Result<Vec<R>, LocalR2cError>, GX: Fn(&[Complex<R>], usize) -> Result<Vec<R>, LocalR2cError>, FC: Fn(&[Complex<R>], usize) -> Result<Vec<Complex<R>>, LocalC2cError>, GC: Fn(&[Complex<R>], usize) -> Result<Vec<Complex<R>>, LocalC2cError>, XR: Fn(usize, Passage, Load<R, N, M>) -> (Load<R, N, M>, Result<(), FftError>), ZR: Fn(usize, Passage, Load<R, N, M>) -> (Load<R, N, M>, Result<(), FftError>), XC: Fn(usize, Passage, Load<Complex<R>, N, M>) -> (Load<Complex<R>, N, M>, Result<(), FftError>), ZC: Fn(usize, Passage, Load<Complex<R>, N, M>) -> (Load<Complex<R>, N, M>, Result<(), FftError>), V: Inspector<R, R2cError, N, M>, W: Inspector<R, R2cError, N, M>, const N: usize, const M: usize>(
    left: R2cReverseCrew<R, FX, FC, XR, XC, V, N, M>,
    right: R2cReverseCrew<R, GX, GC, ZR, ZC, W, N, M>,
    early: bool,
    moves: int,
    index: int,
    a: R2cReverseTask<R, N, M>,
    c: R2cReverseTask<R, N, M>,
) -> bool {
    let (one, two) = (seen_home(left, moves, index, a), seen_home(right, moves, index, c));
    if early && index == 2 * left.core.boundary + 1 && index < moves {
        &&& one is Complex
        &&& two is Complex
        &&& forall|
            before: ManyPencilArray<Complex<R>, N, M>,
            after: ManyPencilArray<Complex<R>, N, M>,
        | #[trigger]
            left.inspector.clears(before, after, Ok(())) && active_values(before)
                == one->Complex_0 ==> active_values(after) == two->Complex_0
    } else {
        one == two
    }
}

proof fn lemma_move_home_alike<R: FftReal, FX: Fn(&[Complex<R>], usize) -> Result<Vec<R>, LocalR2cError>, GX: Fn(&[Complex<R>], usize) -> Result<Vec<R>, LocalR2cError>, FC: Fn(&[Complex<R>], usize) -> Result<Vec<Complex<R>>, LocalC2cError>, GC: Fn(&[Complex<R>], usize) -> Result<Vec<Complex<R>>, LocalC2cError>, XR: Fn(usize, Passage, Load<R, N, M>) -> (Load<R, N, M>, Result<(), FftError>), ZR: Fn(usize, Passage, Load<R, N, M>) -> (Load<R, N, M>, Result<(), FftError>), XC: Fn(usize, Passage, Load<Complex<R>, N, M>) -> (Load<Complex<R>, N, M>, Result<(), FftError>), ZC: Fn(usize, Passage, Load<Complex<R>, N, M>) -> (Load<Complex<R>, N, M>, Result<(), FftError>), V: Inspector<R, R2cError, N, M>, W: Inspector<R, R2cError, N, M>, const N: usize, const M: usize>(
    left: R2cReverseCrew<R, FX, FC, XR, XC, V, N, M>,
    right: R2cReverseCrew<R, GX, GC, ZR, ZC, W, N, M>,
    route: Itinerary,
    modes: (Mode, Mode),
    eager: (Seq<bool>, Seq<bool>),
    index: int,
    a: R2cReverseTask<R, N, M>,
    b: R2cReverseTask<R, N, M>,
    c: R2cReverseTask<R, N, M>,
    d: R2cReverseTask<R, N, M>,
)
    requires
        left.able(),
        right.able(),
        r2c_home_alike::<R, FX, GX, FC, GC, XR, ZR, XC, ZC, V, W, N, M>(left, right),
        route == left.core.itinerary(),
        route.wf(),
        modes.0 == Mode::OutOfPlace,
        modes.1 != Mode::InPlace,
        route.stages == left.core.stages@.len(),
        0 <= index < route.moves(),
        all_done::<R2cReverseTask<R, N, M>, R2cError, R2cReverseCrew<R, FX, FC, XR, XC, V, N, M>>(
            left,
            route.move_home(modes.0, index, eager.0),
            a,
            b,
        ),
        all_done::<R2cReverseTask<R, N, M>, R2cError, R2cReverseCrew<R, GX, GC, ZR, ZC, W, N, M>>(
            right,
            route.move_home(modes.1, index, eager.1),
            c,
            d,
        ),
        same_home::<R, FX, GX, FC, GC, XR, ZR, XC, ZC, V, W, N, M>(left, right, modes.1 == Mode::Overlap, route.moves(), index + 1, a, c),
    ensures
        same_home::<R, FX, GX, FC, GC, XR, ZR, XC, ZC, V, W, N, M>(left, right, modes.1 == Mode::Overlap, route.moves(), index, b, d),
{
    let stage = index / 2;
    let edge = route.boundary as int;
    if index % 2 == 0 {
        assert(index == 2 * stage);
        if stage == edge {
            let one = lemma_boundary_home(left, route, modes.0, eager.0, a, b);
            let two = lemma_boundary_home(right, route, modes.1, eager.1, c, d);
            assert(left.inspector.clears(one.2, one.3, Ok(())));
            assert(active_values(one.3) == active_values(two.3));
            law_reverse_crossing_alike::<R, FX, GX, N, M>(
                left.core.spec_reverse_crossing(left.crossing, one.1),
                right.core.spec_reverse_crossing(right.crossing, two.1),
            );
        } else {
            let one = lemma_stage_home(left, route, modes.0, eager.0, stage, a, b);
            let two = lemma_stage_home(right, route, modes.1, eager.1, stage, c, d);
            if stage > edge {
                law_tail_station_alike::<Complex<R>, FC, GC, N, M>(
                    left.core.spec_tail_station(Direction::Inverse, one.0, &left.kernels@[stage]),
                    right.core.spec_tail_station(Direction::Inverse, two.0, &right.kernels@[stage]),
                );
            }
        }
    } else {
        let at = route.carries_in(stage);
        let step_left = exchange_step(stage, at, modes.0, route.kind.spec_agrees());
        let step_right = exchange_step(stage, at, modes.1, route.kind.spec_agrees());
        assert(index == 2 * stage + 1);
        assert(route.move_home(modes.0, index, eager.0) =~= seq![step_left]);
        lemma_one_done::<R2cReverseTask<R, N, M>, R2cError, R2cReverseCrew<R, FX, FC, XR, XC, V, N, M>>(left, step_left, a, b);
        let list = route.move_home(modes.1, index, eager.1);
        let sent = if route.checks_early(modes.1, stage) {
            let validate = endpoint_step(Work::Validate, false, false);
            let clear = endpoint_step(Work::Clear, false, false);
            assert(list =~= seq![validate, clear] + seq![step_right]);
            let sent = lemma_all_done_split::<R2cReverseTask<R, N, M>, R2cError, R2cReverseCrew<R, GX, GC, ZR, ZC, W, N, M>>(
                right,
                seq![validate, clear],
                seq![step_right],
                c,
                d,
            );
            let checked = lemma_two_done::<R2cReverseTask<R, N, M>, R2cError, R2cReverseCrew<R, GX, GC, ZR, ZC, W, N, M>>(right, validate, clear, c, sent);
            assert(right.inspector.clears(c.1.intermediate, sent.1.intermediate, Ok(())));
            lemma_one_done::<R2cReverseTask<R, N, M>, R2cError, R2cReverseCrew<R, GX, GC, ZR, ZC, W, N, M>>(right, step_right, sent, d);
            sent
        } else {
            assert(list =~= seq![step_right]);
            lemma_one_done::<R2cReverseTask<R, N, M>, R2cError, R2cReverseCrew<R, GX, GC, ZR, ZC, W, N, M>>(right, step_right, c, d);
            c
        };
        let (la, lb) = (half_load(a.1), half_load(b.1));
        let (lc, ld) = (half_load(sent.1), half_load(d.1));
        if at == Slot::Real {
            lemma_exchanged::<R, R2cError, XR, N, M>(
                *left.real_exchange,
                left.core.transitions@,
                left.direction,
                stage as usize,
                (la.reals->0, la.real_buffers->0),
                (lb.reals->0, lb.real_buffers->0),
            );
            lemma_exchanged::<R, R2cError, ZR, N, M>(
                *right.real_exchange,
                right.core.transitions@,
                right.direction,
                stage as usize,
                (lc.reals->0, lc.real_buffers->0),
                (ld.reals->0, ld.real_buffers->0),
            );
        } else {
            lemma_exchanged::<Complex<R>, R2cError, XC, N, M>(
                *left.exchange,
                left.core.transitions@,
                left.direction,
                stage as usize,
                (la.complexes, la.buffers),
                (lb.complexes, lb.buffers),
            );
            lemma_exchanged::<Complex<R>, R2cError, ZC, N, M>(
                *right.exchange,
                right.core.transitions@,
                right.direction,
                stage as usize,
                (lc.complexes, lc.buffers),
                (ld.complexes, ld.buffers),
            );
            if route.checks_early(modes.1, stage) {
                let kind = left.core.transitions@[stage].spec_passage(left.direction);
                let (given, made) = ((la.complexes, la.buffers), (lb.complexes, lb.buffers));
                let (taken, handed) = ((lc.complexes, lc.buffers), (ld.complexes, ld.buffers));
                assert forall|
                    behind: ManyPencilArray<Complex<R>, N, M>,
                    cleared: ManyPencilArray<Complex<R>, N, M>,
                | #[trigger]
                    left.inspector.clears(behind, cleared, Ok(())) && active_values(behind)
                        == active_values(b.1.intermediate) implies active_values(cleared)
                    == active_values(d.1.intermediate) by {
                    let exchanges = (*left.exchange, *right.exchange);
                    let inspectors = (*left.inspector, *right.inspector);
                    assert(exchanges.0.ensures((left.core.boundary, kind, given), (made, Ok(()))));
                    assert(exchanges.1.ensures((left.core.boundary, kind, taken), (handed, Ok(()))));
                    assert(inspectors.0.clears(behind, cleared, Ok(())));
                    assert(inspectors.1.clears(c.1.intermediate, taken.0, Ok(())));
                }
            }
        }
    }
}

/// The steps of two reverse executions of the same values make the same, with overlap or without.
pub proof fn law_r2c_home_steps_alike<R: FftReal, FX: Fn(&[Complex<R>], usize) -> Result<Vec<R>, LocalR2cError>, GX: Fn(&[Complex<R>], usize) -> Result<Vec<R>, LocalR2cError>, FC: Fn(&[Complex<R>], usize) -> Result<Vec<Complex<R>>, LocalC2cError>, GC: Fn(&[Complex<R>], usize) -> Result<Vec<Complex<R>>, LocalC2cError>, XR: Fn(usize, Passage, Load<R, N, M>) -> (Load<R, N, M>, Result<(), FftError>), ZR: Fn(usize, Passage, Load<R, N, M>) -> (Load<R, N, M>, Result<(), FftError>), XC: Fn(usize, Passage, Load<Complex<R>, N, M>) -> (Load<Complex<R>, N, M>, Result<(), FftError>), ZC: Fn(usize, Passage, Load<Complex<R>, N, M>) -> (Load<Complex<R>, N, M>, Result<(), FftError>), V: Inspector<R, R2cError, N, M>, W: Inspector<R, R2cError, N, M>, const N: usize, const M: usize>(
    left: R2cReverseCrew<R, FX, FC, XR, XC, V, N, M>,
    right: R2cReverseCrew<R, GX, GC, ZR, ZC, W, N, M>,
    modes: (Mode, Mode),
    eager: (Seq<bool>, Seq<bool>),
    start: R2cReverseTask<R, N, M>,
    end: R2cReverseTask<R, N, M>,
    from: R2cReverseTask<R, N, M>,
    to: R2cReverseTask<R, N, M>,
)
    requires
        left.able(),
        right.able(),
        r2c_home_alike::<R, FX, GX, FC, GC, XR, ZR, XC, ZC, V, W, N, M>(left, right),
        modes.0 == Mode::OutOfPlace,
        modes.1 != Mode::InPlace,
        left.source.data@ == right.source.data@,
        all_done::<R2cReverseTask<R, N, M>, R2cError, R2cReverseCrew<R, FX, FC, XR, XC, V, N, M>>(
            left,
            left.core.itinerary().list(left.direction, modes.0, eager.0),
            start,
            end,
        ),
        all_done::<R2cReverseTask<R, N, M>, R2cError, R2cReverseCrew<R, GX, GC, ZR, ZC, W, N, M>>(
            right,
            left.core.itinerary().list(left.direction, modes.1, eager.1),
            from,
            to,
        ),
    ensures
        end.0.data@ == to.0.data@,
{
    let route = left.core.itinerary();
    assert(left.core.stages.len() == left.core.stages@.len());
    route.lemma_reverse_walks::<R2cReverseTask<R, N, M>, R2cError, R2cReverseCrew<R, FX, FC, XR, XC, V, N, M>>(
        left,
        modes.0,
        eager.0,
        start,
        end,
    );
    route.lemma_reverse_walks::<R2cReverseTask<R, N, M>, R2cError, R2cReverseCrew<R, GX, GC, ZR, ZC, W, N, M>>(
        right,
        modes.1,
        eager.1,
        from,
        to,
    );
    let makes_left = route.makes_home::<R2cReverseTask<R, N, M>, R2cError, R2cReverseCrew<R, FX, FC, XR, XC, V, N, M>>(left, modes.0, eager.0);
    let makes_right = route.makes_home::<R2cReverseTask<R, N, M>, R2cError, R2cReverseCrew<R, GX, GC, ZR, ZC, W, N, M>>(right, modes.1, eager.1);
    let moves = route.moves();
    let related = |index: int, one: R2cReverseTask<R, N, M>, two: R2cReverseTask<R, N, M>| same_home::<R, FX, GX, FC, GC, XR, ZR, XC, ZC, V, W, N, M>(left, right, modes.1 == Mode::Overlap, moves, index, one, two);
    assert forall|index: int, a: R2cReverseTask<R, N, M>, b: R2cReverseTask<R, N, M>, c: R2cReverseTask<R, N, M>, d: R2cReverseTask<R, N, M>|
        0 <= index < moves && #[trigger] walked(makes_left, index, a, b) && #[trigger] walked(
            makes_right,
            index,
            c,
            d,
        ) && related(index + 1, a, c) implies related(index, b, d) by {
        lemma_move_home_alike::<R, FX, GX, FC, GC, XR, ZR, XC, ZC, V, W, N, M>(left, right, route, modes, eager, index, a, b, c, d);
    }
    law_same_way_back(makes_left, makes_right, related, moves, start, end, from, to);
    assert(related(0, end, to));
}

/// A reverse execution of a real-to-complex plan with overlap makes of the same values what one
/// without overlap makes, where the kernels and exchanges of both make the same, they clear the
/// same of the endpoint planes, and work inside an exchange comes to work behind it. Both succeed;
/// whether the exchanges do rests on other processes.
pub proof fn law_r2c_overlap_home_is_plain<R: FftReal, FX: Fn(&[Complex<R>], usize) -> Result<Vec<R>, LocalR2cError>, GX: Fn(&[Complex<R>], usize) -> Result<Vec<R>, LocalR2cError>, FC: Fn(&[Complex<R>], usize) -> Result<Vec<Complex<R>>, LocalC2cError>, GC: Fn(&[Complex<R>], usize) -> Result<Vec<Complex<R>>, LocalC2cError>, XR: Fn(usize, Passage, Load<R, N, M>) -> (Load<R, N, M>, Result<(), FftError>), ZR: Fn(usize, Passage, Load<R, N, M>) -> (Load<R, N, M>, Result<(), FftError>), XC: Fn(usize, Passage, Load<Complex<R>, N, M>) -> (Load<Complex<R>, N, M>, Result<(), FftError>), ZC: Fn(usize, Passage, Load<Complex<R>, N, M>) -> (Load<Complex<R>, N, M>, Result<(), FftError>), V: Inspector<R, R2cError, N, M>, W: Inspector<R, R2cError, N, M>, YR: Fn(usize, Direction, Option<bool>, Load<R, N, M>) -> (Load<R, N, M>, Result<(), OverlapError<R2cError>>), YC: Fn(usize, Direction, Option<bool>, Load<Complex<R>, N, M>) -> (Load<Complex<R>, N, M>, Result<(), OverlapError<R2cError>>), A: Fn(bool) -> bool, B: Fn(bool) -> bool, const N: usize, const M: usize>(
    plain: R2cReverseCrew<R, FX, FC, XR, XC, V, N, M>,
    overlapped: R2cReverseOverlapCrew<R, GX, GC, ZR, ZC, W, YR, YC, N, M>,
    agree: (A, B),
    eager: (Seq<bool>, Seq<bool>),
    start: R2cReverseTask<R, N, M>,
    end: R2cReverseTask<R, N, M>,
    from: R2cReverseTask<R, N, M>,
    to: R2cReverseTask<R, N, M>,
)
    requires
        plain.able(),
        r2c_home_alike::<R, FX, GX, FC, GC, XR, ZR, XC, ZC, V, W, N, M>(plain, overlapped.crew),
        plain.source.data@ == overlapped.crew.source.data@,
        steps_run::<R2cReverseTask<R, N, M>, R2cError, InTurn<R2cReverseCrew<R, FX, FC, XR, XC, V, N, M>>, A>(
            InTurn { crew: &plain },
            agree.0,
            plain.core.itinerary().list(plain.direction, Mode::OutOfPlace, eager.0),
            start,
            end,
            Ok(()),
        ),
        ran_overlapped::<R2cReverseTask<R, N, M>, R2cError, R2cReverseOverlapCrew<R, GX, GC, ZR, ZC, W, YR, YC, N, M>, B>(
            overlapped,
            agree.1,
            plain.core.itinerary().list(plain.direction, Mode::Overlap, eager.1),
            from,
            to,
        ),
    ensures
        to.0.data@ == end.0.data@,
{
    let route = plain.core.itinerary();
    let one = route.reverse_list(Mode::OutOfPlace, eager.0);
    let two = route.reverse_list(Mode::Overlap, eager.1);
    lemma_pieces_all_done::<R2cReverseTask<R, N, M>, R2cError, R2cReverseCrew<R, FX, FC, XR, XC, V, N, M>, A>(
        plain,
        agree.0,
        one,
        one.len() as int,
        start,
        end,
    );
    assert(one.take(one.len() as int) =~= one);
    law_overlap_does_steps::<R2cReverseTask<R, N, M>, R2cError, R2cReverseOverlapCrew<R, GX, GC, ZR, ZC, W, YR, YC, N, M>, B>(
        overlapped,
        agree.1,
        two,
        two.len() as int,
        from,
        to,
    );
    assert(two.take(two.len() as int) =~= two);
    lemma_same_steps::<R2cReverseTask<R, N, M>, R2cError, R2cReverseOverlapCrew<R, GX, GC, ZR, ZC, W, YR, YC, N, M>, R2cReverseCrew<R, GX, GC, ZR, ZC, W, N, M>>(overlapped, overlapped.crew, two, from, to);
    law_r2c_home_steps_alike::<R, FX, GX, FC, GC, XR, ZR, XC, ZC, V, W, N, M>(
        plain,
        overlapped.crew,
        (Mode::OutOfPlace, Mode::Overlap),
        eager,
        start,
        end,
        from,
        to,
    );
}

} // verus!
