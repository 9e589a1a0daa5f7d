//! An execution of a mixed complex plan with overlap makes what one without it makes.

use vstd::prelude::*;

use crate::alike::exchanges_alike;
use crate::alike::kernels_alike;
use crate::alike::law_mixed_station_alike;
use crate::carrier::Load;
use crate::crew::Crew;
use crate::crew::InTurn;
use crate::crew::all_done;
use crate::crew::lemma_same_steps;
use crate::crew_mixed_c2c::MixedC2cCrew;
use crate::crew_mixed_c2c::MixedC2cOverlapCrew;
use crate::crew_mixed_c2c::MixedC2cTask;
use crate::error::FftError;
use crate::error::MixedError;
use crate::error::OverlapError;
use crate::layout::Direction;
use crate::round_mixed_c2c::lemma_stage_there;
use crate::round_mixed_c2c::seen_there;
use crate::round_trip::lemma_exchanged;
use crate::round_trip::lemma_one_done;
use crate::run::steps_run;
use crate::scalar::Complex;
use crate::scalar::FftReal;
use crate::schedule::Itinerary;
use crate::schedule::Mode;
use crate::schedule::exchange_step;
use crate::stages::LocalError;
use crate::transition::Passage;
use crate::walk::law_overlap_does_steps;
use crate::walk::law_same_way;
use crate::walk::lemma_pieces_all_done;
use crate::walk::ran_overlapped;
use crate::walk::walked;

verus! {

/// Two crews execute the same plan forward, with kernels and exchanges that make the same.
pub open spec fn mixed_c2c_alike<R: FftReal, F: Fn(&[Complex<R>], usize) -> Result<Vec<Complex<R>>, LocalError>, G: Fn(&[Complex<R>], usize) -> Result<Vec<Complex<R>>, LocalError>, X: Fn(usize, Passage, Load<Complex<R>, N, M>) -> (Load<Complex<R>, N, M>, Result<(), FftError>), Z: Fn(usize, Passage, Load<Complex<R>, N, M>) -> (Load<Complex<R>, N, M>, Result<(), FftError>), const N: usize, const M: usize>(
    left: MixedC2cCrew<R, F, X, N, M>,
    right: MixedC2cCrew<R, G, Z, N, M>,
) -> bool {
    &&& *right.core == *left.core
    &&& left.direction == Direction::Forward
    &&& right.direction == Direction::Forward
    &&& kernels_alike::<Complex<R>, Complex<R>, LocalError, F, G>(left.kernels@, right.kernels@)
    &&& exchanges_alike::<Complex<R>, X, Z, N, M>(
        *left.exchange,
        *right.exchange,
        left.core.transitions@,
        Direction::Forward,
    )
}

proof fn lemma_move_alike<R: FftReal, F: Fn(&[Complex<R>], usize) -> Result<Vec<Complex<R>>, LocalError>, G: Fn(&[Complex<R>], usize) -> Result<Vec<Complex<R>>, LocalError>, X: Fn(usize, Passage, Load<Complex<R>, N, M>) -> (Load<Complex<R>, N, M>, Result<(), FftError>), Z: Fn(usize, Passage, Load<Complex<R>, N, M>) -> (Load<Complex<R>, N, M>, Result<(), FftError>), const N: usize, const M: usize>(
    left: MixedC2cCrew<R, F, X, N, M>,
    right: MixedC2cCrew<R, G, Z, N, M>,
    route: Itinerary,
    modes: (Mode, Mode),
    eager: (Seq<bool>, Seq<bool>),
    index: int,
    a: MixedC2cTask<R, N, M>,
    b: MixedC2cTask<R, N, M>,
    c: MixedC2cTask<R, N, M>,
    d: MixedC2cTask<R, N, M>,
)
    requires
        left.able(),
        right.able(),
        mixed_c2c_alike::<R, F, G, X, Z, N, M>(left, right),
        route == left.core.itinerary(),
        route.wf(),
        modes.0 != Mode::InPlace,
        modes.1 != Mode::InPlace,
        route.stages == left.core.stages@.len(),
        0 <= index < route.moves(),
        all_done::<MixedC2cTask<R, N, M>, MixedError, MixedC2cCrew<R, F, X, N, M>>(
            left,
            route.move_there(modes.0, index, eager.0),
            a,
            b,
        ),
        all_done::<MixedC2cTask<R, N, M>, MixedError, MixedC2cCrew<R, G, Z, N, M>>(
            right,
            route.move_there(modes.1, index, eager.1),
            c,
            d,
        ),
        seen_there(left, route.moves(), index, a) == seen_there(right, route.moves(), index, c),
    ensures
        seen_there(left, route.moves(), index + 1, b) == seen_there(
            right,
            route.moves(),
            index + 1,
            d,
        ),
{
    let stage = index / 2;
    if index % 2 == 0 {
        assert(index == 2 * stage);
        let one = lemma_stage_there(left, route, modes.0, eager.0, stage, a, b);
        let two = lemma_stage_there(right, route, modes.1, eager.1, stage, c, d);
        law_mixed_station_alike::<Complex<R>, F, G, N, M>(
            left.core.spec_station(left.direction, one, &left.kernels@[stage]),
            right.core.spec_station(right.direction, two, &right.kernels@[stage]),
        );
    } else {
        let at = route.carries_in(stage);
        let step_left = exchange_step(stage, at, modes.0, route.kind.spec_agrees());
        let step_right = exchange_step(stage, at, modes.1, route.kind.spec_agrees());
        assert(index == 2 * stage + 1);
        assert(route.move_there(modes.0, index, eager.0) =~= seq![step_left]);
        assert(route.move_there(modes.1, index, eager.1) =~= seq![step_right]);
        lemma_one_done::<MixedC2cTask<R, N, M>, MixedError, MixedC2cCrew<R, F, X, N, M>>(left, step_left, a, b);
        lemma_one_done::<MixedC2cTask<R, N, M>, MixedError, MixedC2cCrew<R, G, Z, N, M>>(right, step_right, c, d);
        lemma_exchanged::<Complex<R>, MixedError, X, N, M>(
            *left.exchange,
            left.core.transitions@,
            Direction::Forward,
            stage as usize,
            (a.1.intermediate, a.1.transpose),
            (b.1.intermediate, b.1.transpose),
        );
        lemma_exchanged::<Complex<R>, MixedError, Z, N, M>(
            *right.exchange,
            right.core.transitions@,
            Direction::Forward,
            stage as usize,
            (c.1.intermediate, c.1.transpose),
            (d.1.intermediate, d.1.transpose),
        );
    }
}

/// The steps of two forward executions of the same values make the same, with overlap or without.
pub proof fn law_mixed_c2c_steps_alike<R: FftReal, F: Fn(&[Complex<R>], usize) -> Result<Vec<Complex<R>>, LocalError>, G: Fn(&[Complex<R>], usize) -> Result<Vec<Complex<R>>, LocalError>, X: Fn(usize, Passage, Load<Complex<R>, N, M>) -> (Load<Complex<R>, N, M>, Result<(), FftError>), Z: Fn(usize, Passage, Load<Complex<R>, N, M>) -> (Load<Complex<R>, N, M>, Result<(), FftError>), const N: usize, const M: usize>(
    left: MixedC2cCrew<R, F, X, N, M>,
    right: MixedC2cCrew<R, G, Z, N, M>,
    modes: (Mode, Mode),
    eager: (Seq<bool>, Seq<bool>),
    start: MixedC2cTask<R, N, M>,
    end: MixedC2cTask<R, N, M>,
    from: MixedC2cTask<R, N, M>,
    to: MixedC2cTask<R, N, M>,
)
    requires
        left.able(),
        right.able(),
        mixed_c2c_alike::<R, F, G, X, Z, N, M>(left, right),
        modes.0 != Mode::InPlace,
        modes.1 != Mode::InPlace,
        left.source.data@ == right.source.data@,
        all_done::<MixedC2cTask<R, N, M>, MixedError, MixedC2cCrew<R, F, X, N, M>>(
            left,
            left.core.itinerary().list(Direction::Forward, modes.0, eager.0),
            start,
            end,
        ),
        all_done::<MixedC2cTask<R, N, M>, MixedError, MixedC2cCrew<R, G, Z, N, M>>(
            right,
            left.core.itinerary().list(Direction::Forward, modes.1, eager.1),
            from,
            to,
        ),
    ensures
        end.0.data@ == to.0.data@,
{
    let route = left.core.itinerary();
    assert(left.core.stages.len() == left.core.stages@.len());
    route.lemma_forward_walks::<MixedC2cTask<R, N, M>, MixedError, MixedC2cCrew<R, F, X, N, M>>(
        left,
        modes.0,
        eager.0,
        start,
        end,
    );
    route.lemma_forward_walks::<MixedC2cTask<R, N, M>, MixedError, MixedC2cCrew<R, G, Z, N, M>>(
        right,
        modes.1,
        eager.1,
        from,
        to,
    );
    let makes_left = route.makes_there::<MixedC2cTask<R, N, M>, MixedError, MixedC2cCrew<R, F, X, N, M>>(left, modes.0, eager.0);
    let makes_right = route.makes_there::<MixedC2cTask<R, N, M>, MixedError, MixedC2cCrew<R, G, Z, N, M>>(right, modes.1, eager.1);
    let moves = route.moves();
    let see_left = |index: int, state: MixedC2cTask<R, N, M>| seen_there(left, moves, index, state);
    let see_right = |index: int, state: MixedC2cTask<R, N, M>| seen_there(right, moves, index, state);
    assert forall|index: int, a: MixedC2cTask<R, N, M>, b: MixedC2cTask<R, N, M>, c: MixedC2cTask<R, N, M>, d: MixedC2cTask<R, N, M>|
        0 <= index < moves && #[trigger] walked(makes_left, index, a, b) && #[trigger] walked(
            makes_right,
            index,
            c,
            d,
        ) && see_left(index, a) == see_right(index, c) implies see_left(index + 1, b) == see_right(
        index + 1,
        d,
    ) by {
        lemma_move_alike::<R, F, G, X, Z, N, M>(left, right, route, modes, eager, index, a, b, c, d);
    }
    law_same_way(
        makes_left,
        makes_right,
        see_left,
        see_right,
        moves,
        start,
        end,
        from,
        to,
    );
}

/// A forward execution of a mixed complex plan with overlap makes of the same values what one
/// without overlap makes, where the kernels and exchanges of both make the same and work inside an
/// exchange comes to work behind it. Both succeed; whether the exchanges do rests on other
/// processes.
pub proof fn law_mixed_c2c_overlap_is_plain<R: FftReal, F: Fn(&[Complex<R>], usize) -> Result<Vec<Complex<R>>, LocalError>, G: Fn(&[Complex<R>], usize) -> Result<Vec<Complex<R>>, LocalError>, X: Fn(usize, Passage, Load<Complex<R>, N, M>) -> (Load<Complex<R>, N, M>, Result<(), FftError>), Z: Fn(usize, Passage, Load<Complex<R>, N, M>) -> (Load<Complex<R>, N, M>, Result<(), FftError>), Y: Fn(usize, Direction, Option<bool>, Load<Complex<R>, N, M>) -> (Load<Complex<R>, N, M>, Result<(), OverlapError<MixedError>>), A: Fn(bool) -> bool, B: Fn(bool) -> bool, const N: usize, const M: usize>(
    plain: MixedC2cCrew<R, F, X, N, M>,
    overlapped: MixedC2cOverlapCrew<R, G, Z, Y, N, M>,
    agree: (A, B),
    eager: (Seq<bool>, Seq<bool>),
    start: MixedC2cTask<R, N, M>,
    end: MixedC2cTask<R, N, M>,
    from: MixedC2cTask<R, N, M>,
    to: MixedC2cTask<R, N, M>,
)
    requires
        plain.able(),
        mixed_c2c_alike::<R, F, G, X, Z, N, M>(plain, overlapped.crew),
        plain.source.data@ == overlapped.crew.source.data@,
        steps_run::<MixedC2cTask<R, N, M>, MixedError, InTurn<MixedC2cCrew<R, F, X, N, M>>, A>(
            InTurn { crew: &plain },
            agree.0,
            plain.core.itinerary().list(Direction::Forward, Mode::OutOfPlace, eager.0),
            start,
            end,
            Ok(()),
        ),
        ran_overlapped::<MixedC2cTask<R, N, M>, MixedError, MixedC2cOverlapCrew<R, G, Z, Y, N, M>, B>(
            overlapped,
            agree.1,
            plain.core.itinerary().list(Direction::Forward, Mode::Overlap, eager.1),
            from,
            to,
        ),
    ensures
        to.0.data@ == end.0.data@,
{
    let route = plain.core.itinerary();
    let one = route.forward_list(Mode::OutOfPlace, eager.0);
    let two = route.forward_list(Mode::Overlap, eager.1);
    lemma_pieces_all_done::<MixedC2cTask<R, N, M>, MixedError, MixedC2cCrew<R, F, X, N, M>, A>(
        plain,
        agree.0,
        one,
        one.len() as int,
        start,
        end,
    );
    assert(one.take(one.len() as int) =~= one);
    law_overlap_does_steps::<MixedC2cTask<R, N, M>, MixedError, MixedC2cOverlapCrew<R, G, Z, Y, N, M>, B>(
        overlapped,
        agree.1,
        two,
        two.len() as int,
        from,
        to,
    );
    assert(two.take(two.len() as int) =~= two);
    lemma_same_steps::<MixedC2cTask<R, N, M>, MixedError, MixedC2cOverlapCrew<R, G, Z, Y, N, M>, MixedC2cCrew<R, G, Z, N, M>>(overlapped, overlapped.crew, two, from, to);
    law_mixed_c2c_steps_alike::<R, F, G, X, Z, N, M>(
        plain,
        overlapped.crew,
        (Mode::OutOfPlace, Mode::Overlap),
        eager,
        start,
        end,
        from,
        to,
    );
}

} // verus!
