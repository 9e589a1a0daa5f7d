//! What an execution of a mixed complex plan and its way back without normalization leave of the
//! values.

use vstd::prelude::*;

use crate::carrier::Load;
use crate::crew::Crew;
use crate::crew::InTurn;
use crate::crew::all_done;
use crate::crew::lemma_same_steps;
use crate::crew_mixed_c2c::MixedC2cCrew;
use crate::crew_mixed_c2c::MixedC2cInPlaceCrew;
use crate::crew_mixed_c2c::MixedC2cInPlaceTask;
use crate::crew_mixed_c2c::MixedC2cOverlapCrew;
use crate::crew_mixed_c2c::MixedC2cTask;
use crate::error::FftError;
use crate::error::MixedError;
use crate::error::OverlapError;
use crate::kernels::MixedComplexStation;
use crate::layout::Direction;
use crate::mixed_c2c::MixedC2cCore;
use crate::round_mixed_c2c::lemma_stage_home;
use crate::round_mixed_c2c::lemma_stage_there;
use crate::round_mixed_c2c::seen_home;
use crate::round_mixed_c2c::seen_there;
use crate::round_trip::active_values;
use crate::round_trip::keeps_len;
use crate::round_trip::lemma_applied_maps;
use crate::round_trip::lemma_exchanged;
use crate::round_trip::lemma_one_done;
use crate::run::steps_run;
use crate::scalar::Complex;
use crate::scalar::FftReal;
use crate::scaled::exchanges_undone_scaled;
use crate::scaled::gains_from;
use crate::scaled::law_mixed_station_scaled;
use crate::scaled::mixed_gain;
use crate::scaled::once_keeps;
use crate::scaled::returns_scaled;
use crate::scaled::scaled;
use crate::schedule::Itinerary;
use crate::schedule::Mode;
use crate::schedule::Slot;
use crate::schedule::exchange_step;
use crate::schedule::kernel_step;
use crate::stages::LocalError;
use crate::transition::Passage;
use crate::walk::law_overlap_does_steps;
use crate::walk::law_way_back_by;
use crate::walk::lemma_pieces_all_done;
use crate::walk::ran_overlapped;
use crate::walk::walked;

verus! {

/// How often the values of each stage come back: the length of a Fourier line, the normalization
/// factor of a real-to-real kernel, or once.
pub open spec fn mixed_c2c_gains<const N: usize, const M: usize>(core: MixedC2cCore<N, M>) -> Seq<int> {
    Seq::new(core.locals@.len(), |i: int| mixed_gain(core.locals@[i]))
}

/// The kernels and exchanges of the way back undo those of the way there up to the gains of the
/// stages.
pub open spec fn mixed_c2c_undone_scaled<R: FftReal, F: Fn(&[Complex<R>], usize) -> Result<Vec<Complex<R>>, LocalError>, G: Fn(&[Complex<R>], usize) -> Result<Vec<Complex<R>>, LocalError>, X: Fn(usize, Passage, Load<Complex<R>, N, M>) -> (Load<Complex<R>, N, M>, Result<(), FftError>), Z: Fn(usize, Passage, Load<Complex<R>, N, M>) -> (Load<Complex<R>, N, M>, Result<(), FftError>), const N: usize, const M: usize>(
    there: MixedC2cCrew<R, F, X, N, M>,
    home: MixedC2cCrew<R, G, Z, N, M>,
    times: spec_fn(int, Complex<R>) -> Complex<R>,
) -> bool {
    &&& *home.core == *there.core
    &&& there.direction == Direction::Forward
    &&& home.direction == Direction::Backward
    &&& once_keeps(times)
    &&& forall|i: int|
        0 <= i < there.kernels@.len() ==> returns_scaled::<Complex<R>, Complex<R>, LocalError, F, G>(
            #[trigger] there.kernels@[i],
            home.kernels@[i],
            (times, times),
            mixed_c2c_gains(*there.core)[i],
        ) && keeps_len::<Complex<R>, Complex<R>, LocalError, F>(there.kernels@[i]) && keeps_len::<Complex<R>, Complex<R>, LocalError, G>(
            home.kernels@[i],
        )
    &&& exchanges_undone_scaled::<Complex<R>, X, Z, N, M>(
        *there.exchange,
        *home.exchange,
        there.core.transitions@,
        home.direction,
        times,
    )
}

proof fn lemma_move_scaled<R: FftReal, F: Fn(&[Complex<R>], usize) -> Result<Vec<Complex<R>>, LocalError>, G: Fn(&[Complex<R>], usize) -> Result<Vec<Complex<R>>, LocalError>, X: Fn(usize, Passage, Load<Complex<R>, N, M>) -> (Load<Complex<R>, N, M>, Result<(), FftError>), Z: Fn(usize, Passage, Load<Complex<R>, N, M>) -> (Load<Complex<R>, N, M>, Result<(), FftError>), const N: usize, const M: usize>(
    there: MixedC2cCrew<R, F, X, N, M>,
    home: MixedC2cCrew<R, G, Z, N, M>,
    times: spec_fn(int, Complex<R>) -> Complex<R>,
    route: Itinerary,
    mode: Mode,
    eager: (Seq<bool>, Seq<bool>),
    index: int,
    a: MixedC2cTask<R, N, M>,
    b: MixedC2cTask<R, N, M>,
    c: MixedC2cTask<R, N, M>,
    d: MixedC2cTask<R, N, M>,
)
    requires
        there.able(),
        home.able(),
        mixed_c2c_undone_scaled::<R, F, G, X, Z, N, M>(there, home, times),
        route == there.core.itinerary(),
        route.wf(),
        mode != Mode::InPlace,
        route.stages == there.core.stages@.len(),
        0 <= index < route.moves(),
        all_done::<MixedC2cTask<R, N, M>, MixedError, MixedC2cCrew<R, F, X, N, M>>(
            there,
            route.move_there(mode, index, eager.0),
            a,
            b,
        ),
        all_done::<MixedC2cTask<R, N, M>, MixedError, MixedC2cCrew<R, G, Z, N, M>>(
            home,
            route.move_home(mode, index, eager.1),
            c,
            d,
        ),
        seen_home(home, route.moves(), index + 1, c) == scaled(times, gains_from(mixed_c2c_gains(*there.core), (index + 2) / 2), seen_there(there, route.moves(), index + 1, b)),
    ensures
        seen_home(home, route.moves(), index, d) == scaled(times, gains_from(mixed_c2c_gains(*there.core), (index + 1) / 2), seen_there(there, route.moves(), index, a)),
{
    let stage = index / 2;
    let gains = mixed_c2c_gains(*there.core);
    let factor = gains_from(gains, stage + 1);
    assert(there.core.stages.len() == there.core.stages@.len());
    assert(there.core.locals@.len() == there.core.stages@.len());
    if index % 2 == 0 {
        assert(index == 2 * stage);
        assert(gains_from(gains, stage) == factor * gains[stage]);
        assert((index + 1) / 2 == stage && (index + 2) / 2 == stage + 1);
        assert(factor * 1 == factor);
        let out = lemma_stage_there(there, route, mode, eager.0, stage, a, b);
        let back = lemma_stage_home(home, route, mode, eager.1, stage, c, d);
        assert(there.core.stages@[stage].input == there.core.stages@[stage].output);
        assert(there.kernels@.len() == there.core.stages@.len());
        law_mixed_station_scaled::<Complex<R>, F, G, N, M>(
            there.core.spec_station(there.direction, out, &there.kernels@[stage]),
            home.core.spec_station(home.direction, back, &home.kernels@[stage]),
            times,
            factor,
            seen_there(there, route.moves(), index, a),
            seen_there(there, route.moves(), index + 1, b),
            seen_home(home, route.moves(), index, d),
        );
    } else {
        let at = Slot::Complex;
        let step = exchange_step(stage, at, mode, route.kind.spec_agrees());
        assert(index == 2 * stage + 1);
        assert((index + 1) / 2 == stage + 1 && (index + 2) / 2 == stage + 1);
        assert(route.move_there(mode, index, eager.0) =~= seq![step]);
        assert(route.move_home(mode, index, eager.1) =~= seq![step]);
        lemma_one_done::<MixedC2cTask<R, N, M>, MixedError, MixedC2cCrew<R, F, X, N, M>>(there, step, a, b);
        lemma_one_done::<MixedC2cTask<R, N, M>, MixedError, MixedC2cCrew<R, G, Z, N, M>>(home, step, c, d);
        let sent = (b.1.intermediate, b.1.transpose);
        let returned = (c.1.intermediate, c.1.transpose);
        lemma_exchanged::<Complex<R>, MixedError, X, N, M>(
            *there.exchange,
            there.core.transitions@,
            Direction::Forward,
            stage as usize,
            (a.1.intermediate, a.1.transpose),
            sent,
        );
        lemma_exchanged::<Complex<R>, MixedError, Z, N, M>(
            *home.exchange,
            home.core.transitions@,
            home.direction,
            stage as usize,
            returned,
            (d.1.intermediate, d.1.transpose),
        );
        assert(active_values(returned.0) == scaled(times, factor, active_values(sent.0)));
    }
}

/// The steps of a forward execution and of its way back without normalization give back the values
/// times the product of the gains.
proof fn lemma_steps_scaled<R: FftReal, F: Fn(&[Complex<R>], usize) -> Result<Vec<Complex<R>>, LocalError>, G: Fn(&[Complex<R>], usize) -> Result<Vec<Complex<R>>, LocalError>, X: Fn(usize, Passage, Load<Complex<R>, N, M>) -> (Load<Complex<R>, N, M>, Result<(), FftError>), Z: Fn(usize, Passage, Load<Complex<R>, N, M>) -> (Load<Complex<R>, N, M>, Result<(), FftError>), const N: usize, const M: usize>(
    there: MixedC2cCrew<R, F, X, N, M>,
    home: MixedC2cCrew<R, G, Z, N, M>,
    times: spec_fn(int, Complex<R>) -> Complex<R>,
    mode: Mode,
    eager: (Seq<bool>, Seq<bool>),
    start: MixedC2cTask<R, N, M>,
    turn: MixedC2cTask<R, N, M>,
    from: MixedC2cTask<R, N, M>,
    end: MixedC2cTask<R, N, M>,
)
    requires
        mode != Mode::InPlace,
        there.able(),
        home.able(),
        mixed_c2c_undone_scaled::<R, F, G, X, Z, N, M>(there, home, times),
        all_done::<MixedC2cTask<R, N, M>, MixedError, MixedC2cCrew<R, F, X, N, M>>(
            there,
            there.core.itinerary().list(Direction::Forward, mode, eager.0),
            start,
            turn,
        ),
        home.source.data@ == turn.0.data@,
        all_done::<MixedC2cTask<R, N, M>, MixedError, MixedC2cCrew<R, G, Z, N, M>>(
            home,
            there.core.itinerary().list(home.direction, mode, eager.1),
            from,
            end,
        ),
    ensures
        end.0.data@ == scaled(times, gains_from(mixed_c2c_gains(*there.core), 0), there.source.data@),
{
    let route = there.core.itinerary();
    let gains = mixed_c2c_gains(*there.core);
    assert(there.core.stages.len() == there.core.stages@.len());
    assert(there.core.locals@.len() == there.core.stages@.len());
    route.lemma_forward_walks::<MixedC2cTask<R, N, M>, MixedError, MixedC2cCrew<R, F, X, N, M>>(there, mode, eager.0, start, turn);
    route.lemma_reverse_walks::<MixedC2cTask<R, N, M>, MixedError, MixedC2cCrew<R, G, Z, N, M>>(home, mode, eager.1, from, end);
    let makes_there = route.makes_there::<MixedC2cTask<R, N, M>, MixedError, MixedC2cCrew<R, F, X, N, M>>(there, mode, eager.0);
    let makes_home = route.makes_home::<MixedC2cTask<R, N, M>, MixedError, MixedC2cCrew<R, G, Z, N, M>>(home, mode, eager.1);
    let moves = route.moves();
    let related = |index: int, c: MixedC2cTask<R, N, M>, b: MixedC2cTask<R, N, M>|
        seen_home(home, moves, index, c) == scaled(times, gains_from(gains, (index + 1) / 2), seen_there(there, moves, index, b));
    assert forall|index: int, a: MixedC2cTask<R, N, M>, b: MixedC2cTask<R, N, M>, c: MixedC2cTask<R, N, M>, d: MixedC2cTask<R, N, M>|
        0 <= index < moves && #[trigger] walked(makes_there, index, a, b) && #[trigger] walked(
            makes_home,
            index,
            c,
            d,
        ) && related(index + 1, c, b) implies related(index, d, a) by {
        lemma_move_scaled::<R, F, G, X, Z, N, M>(there, home, times, route, mode, eager, index, a, b, c, d);
    }
    assert(gains_from(gains, (moves + 1) / 2) == 1);
    assert(scaled(times, 1, turn.0.data@) =~= turn.0.data@);
    assert(related(moves, from, turn));
    law_way_back_by(makes_there, makes_home, related, moves, start, turn, from, end);
    assert(related(0, end, start));
}

/// A forward execution of a mixed complex plan out of place and its way back without normalization
/// give back the values times the product of the gains of all stages, with kernels that lead back
/// to multiples and exchanges that undo those of the first.
pub proof fn law_mixed_c2c_backward_scales<R: FftReal, F: Fn(&[Complex<R>], usize) -> Result<Vec<Complex<R>>, LocalError>, G: Fn(&[Complex<R>], usize) -> Result<Vec<Complex<R>>, LocalError>, X: Fn(usize, Passage, Load<Complex<R>, N, M>) -> (Load<Complex<R>, N, M>, Result<(), FftError>), Z: Fn(usize, Passage, Load<Complex<R>, N, M>) -> (Load<Complex<R>, N, M>, Result<(), FftError>), A: Fn(bool) -> bool, B: Fn(bool) -> bool, const N: usize, const M: usize>(
    there: MixedC2cCrew<R, F, X, N, M>,
    home: MixedC2cCrew<R, G, Z, N, M>,
    times: spec_fn(int, Complex<R>) -> Complex<R>,
    agree: (A, B),
    eager: (Seq<bool>, Seq<bool>),
    start: MixedC2cTask<R, N, M>,
    turn: MixedC2cTask<R, N, M>,
    from: MixedC2cTask<R, N, M>,
    end: MixedC2cTask<R, N, M>,
)
    requires
        there.able(),
        home.able(),
        mixed_c2c_undone_scaled::<R, F, G, X, Z, N, M>(there, home, times),
        steps_run::<MixedC2cTask<R, N, M>, MixedError, InTurn<MixedC2cCrew<R, F, X, N, M>>, A>(
            InTurn { crew: &there },
            agree.0,
            there.core.itinerary().list(Direction::Forward, Mode::OutOfPlace, eager.0),
            start,
            turn,
            Ok(()),
        ),
        home.source.data@ == turn.0.data@,
        steps_run::<MixedC2cTask<R, N, M>, MixedError, InTurn<MixedC2cCrew<R, G, Z, N, M>>, B>(
            InTurn { crew: &home },
            agree.1,
            there.core.itinerary().list(home.direction, Mode::OutOfPlace, eager.1),
            from,
            end,
            Ok(()),
        ),
    ensures
        end.0.data@ == scaled(times, gains_from(mixed_c2c_gains(*there.core), 0), there.source.data@),
{
    let route = there.core.itinerary();
    let out = route.forward_list(Mode::OutOfPlace, eager.0);
    let back = route.reverse_list(Mode::OutOfPlace, eager.1);
    lemma_pieces_all_done::<MixedC2cTask<R, N, M>, MixedError, MixedC2cCrew<R, F, X, N, M>, A>(there, agree.0, out, out.len() as int, start, turn);
    lemma_pieces_all_done::<MixedC2cTask<R, N, M>, MixedError, MixedC2cCrew<R, G, Z, N, M>, B>(home, agree.1, back, back.len() as int, from, end);
    assert(out.take(out.len() as int) =~= out);
    assert(back.take(back.len() as int) =~= back);
    lemma_steps_scaled::<R, F, G, X, Z, N, M>(there, home, times, Mode::OutOfPlace, eager, start, turn, from, end);
}

/// A forward execution of a mixed complex plan with overlap and its way back with overlap and without
/// normalization give back the values times the product of the gains of all stages, with kernels that
/// lead back to multiples and exchanges that undo those of the first, where work inside an exchange
/// comes to work behind it.
pub proof fn law_mixed_c2c_backward_scales_overlapped<R: FftReal, F: Fn(&[Complex<R>], usize) -> Result<Vec<Complex<R>>, LocalError>, G: Fn(&[Complex<R>], usize) -> Result<Vec<Complex<R>>, LocalError>, X: Fn(usize, Passage, Load<Complex<R>, N, M>) -> (Load<Complex<R>, N, M>, Result<(), FftError>), Z: Fn(usize, Passage, Load<Complex<R>, N, M>) -> (Load<Complex<R>, N, M>, Result<(), FftError>), Y: Fn(usize, Direction, Option<bool>, Load<Complex<R>, N, M>) -> (Load<Complex<R>, N, M>, Result<(), OverlapError<MixedError>>), U: Fn(usize, Direction, Option<bool>, Load<Complex<R>, N, M>) -> (Load<Complex<R>, N, M>, Result<(), OverlapError<MixedError>>), A: Fn(bool) -> bool, B: Fn(bool) -> bool, const N: usize, const M: usize>(
    there: MixedC2cOverlapCrew<R, F, X, Y, N, M>,
    home: MixedC2cOverlapCrew<R, G, Z, U, N, M>,
    times: spec_fn(int, Complex<R>) -> Complex<R>,
    agree: (A, B),
    eager: (Seq<bool>, Seq<bool>),
    start: MixedC2cTask<R, N, M>,
    turn: MixedC2cTask<R, N, M>,
    from: MixedC2cTask<R, N, M>,
    end: MixedC2cTask<R, N, M>,
)
    requires
        mixed_c2c_undone_scaled::<R, F, G, X, Z, N, M>(there.crew, home.crew, times),
        ran_overlapped::<MixedC2cTask<R, N, M>, MixedError, MixedC2cOverlapCrew<R, F, X, Y, N, M>, A>(
            there,
            agree.0,
            there.crew.core.itinerary().list(Direction::Forward, Mode::Overlap, eager.0),
            start,
            turn,
        ),
        home.crew.source.data@ == turn.0.data@,
        ran_overlapped::<MixedC2cTask<R, N, M>, MixedError, MixedC2cOverlapCrew<R, G, Z, U, N, M>, B>(
            home,
            agree.1,
            there.crew.core.itinerary().list(home.crew.direction, Mode::Overlap, eager.1),
            from,
            end,
        ),
    ensures
        end.0.data@ == scaled(times, gains_from(mixed_c2c_gains(*there.crew.core), 0), there.crew.source.data@),
{
    let route = there.crew.core.itinerary();
    let out = route.forward_list(Mode::Overlap, eager.0);
    let back = route.reverse_list(Mode::Overlap, eager.1);
    law_overlap_does_steps::<MixedC2cTask<R, N, M>, MixedError, MixedC2cOverlapCrew<R, F, X, Y, N, M>, A>(there, agree.0, out, out.len() as int, start, turn);
    law_overlap_does_steps::<MixedC2cTask<R, N, M>, MixedError, MixedC2cOverlapCrew<R, G, Z, U, N, M>, B>(home, agree.1, back, back.len() as int, from, end);
    assert(out.take(out.len() as int) =~= out);
    assert(back.take(back.len() as int) =~= back);
    lemma_same_steps::<MixedC2cTask<R, N, M>, MixedError, MixedC2cOverlapCrew<R, F, X, Y, N, M>, MixedC2cCrew<R, F, X, N, M>>(there, there.crew, out, start, turn);
    lemma_same_steps::<MixedC2cTask<R, N, M>, MixedError, MixedC2cOverlapCrew<R, G, Z, U, N, M>, MixedC2cCrew<R, G, Z, N, M>>(home, home.crew, back, from, end);
    lemma_steps_scaled::<R, F, G, X, Z, N, M>(there.crew, home.crew, times, Mode::Overlap, eager, start, turn, from, end);
}

/// The kernels and exchanges of the way back in place undo those of the way there up to the gains
/// of the stages.
pub open spec fn mixed_c2c_undone_scaled_in_place<R: FftReal, F: Fn(&[Complex<R>], usize) -> Result<Vec<Complex<R>>, LocalError>, G: Fn(&[Complex<R>], usize) -> Result<Vec<Complex<R>>, LocalError>, X: Fn(usize, Passage, Load<Complex<R>, N, M>) -> (Load<Complex<R>, N, M>, Result<(), FftError>), Z: Fn(usize, Passage, Load<Complex<R>, N, M>) -> (Load<Complex<R>, N, M>, Result<(), FftError>), const N: usize, const M: usize>(
    there: MixedC2cInPlaceCrew<F, X, N, M>,
    home: MixedC2cInPlaceCrew<G, Z, N, M>,
    times: spec_fn(int, Complex<R>) -> Complex<R>,
) -> bool {
    &&& *home.core == *there.core
    &&& there.direction == Direction::Forward
    &&& home.direction == Direction::Backward
    &&& once_keeps(times)
    &&& forall|i: int|
        0 <= i < there.kernels@.len() ==> returns_scaled::<Complex<R>, Complex<R>, LocalError, F, G>(
            #[trigger] there.kernels@[i],
            home.kernels@[i],
            (times, times),
            mixed_c2c_gains(*there.core)[i],
        ) && keeps_len::<Complex<R>, Complex<R>, LocalError, F>(there.kernels@[i]) && keeps_len::<Complex<R>, Complex<R>, LocalError, G>(
            home.kernels@[i],
        )
    &&& exchanges_undone_scaled::<Complex<R>, X, Z, N, M>(
        *there.exchange,
        *home.exchange,
        there.core.transitions@,
        home.direction,
        times,
    )
}

proof fn lemma_kept_move_scaled<R: FftReal, F: Fn(&[Complex<R>], usize) -> Result<Vec<Complex<R>>, LocalError>, G: Fn(&[Complex<R>], usize) -> Result<Vec<Complex<R>>, LocalError>, X: Fn(usize, Passage, Load<Complex<R>, N, M>) -> (Load<Complex<R>, N, M>, Result<(), FftError>), Z: Fn(usize, Passage, Load<Complex<R>, N, M>) -> (Load<Complex<R>, N, M>, Result<(), FftError>), const N: usize, const M: usize>(
    there: MixedC2cInPlaceCrew<F, X, N, M>,
    home: MixedC2cInPlaceCrew<G, Z, N, M>,
    times: spec_fn(int, Complex<R>) -> Complex<R>,
    route: Itinerary,
    eager: (Seq<bool>, Seq<bool>),
    index: int,
    a: MixedC2cInPlaceTask<R, N, M>,
    b: MixedC2cInPlaceTask<R, N, M>,
    c: MixedC2cInPlaceTask<R, N, M>,
    d: MixedC2cInPlaceTask<R, N, M>,
)
    requires
        Crew::<MixedC2cInPlaceTask<R, N, M>, MixedError>::able(&there),
        Crew::<MixedC2cInPlaceTask<R, N, M>, MixedError>::able(&home),
        mixed_c2c_undone_scaled_in_place::<R, F, G, X, Z, N, M>(there, home, times),
        route == there.core.itinerary(),
        route.wf(),
        route.stages == there.core.stages@.len(),
        0 <= index < route.moves(),
        all_done::<MixedC2cInPlaceTask<R, N, M>, MixedError, MixedC2cInPlaceCrew<F, X, N, M>>(
            there,
            route.move_there(Mode::InPlace, index, eager.0),
            a,
            b,
        ),
        all_done::<MixedC2cInPlaceTask<R, N, M>, MixedError, MixedC2cInPlaceCrew<G, Z, N, M>>(
            home,
            route.move_home(Mode::InPlace, index, eager.1),
            c,
            d,
        ),
        active_values(c.0.array) == scaled(times, gains_from(mixed_c2c_gains(*there.core), (index + 2) / 2), active_values(b.0.array)),
    ensures
        active_values(d.0.array) == scaled(times, gains_from(mixed_c2c_gains(*there.core), (index + 1) / 2), active_values(a.0.array)),
{
    let stage = index / 2;
    let gains = mixed_c2c_gains(*there.core);
    let factor = gains_from(gains, stage + 1);
    let agreed = route.kind.spec_agrees();
    assert(there.core.stages.len() == there.core.stages@.len());
    assert(there.core.locals@.len() == there.core.stages@.len());
    if index % 2 == 0 {
        assert(index == 2 * stage);
        assert(gains_from(gains, stage) == factor * gains[stage]);
        assert((index + 1) / 2 == stage && (index + 2) / 2 == stage + 1);
        assert(factor * 1 == factor);
        let step = kernel_step(stage, Slot::Complex, Slot::Complex, Mode::InPlace, agreed, false);
        assert(route.move_there(Mode::InPlace, index, eager.0) =~= seq![step]);
        assert(route.move_home(Mode::InPlace, index, eager.1) =~= seq![step]);
        lemma_one_done::<MixedC2cInPlaceTask<R, N, M>, MixedError, MixedC2cInPlaceCrew<F, X, N, M>>(there, step, a, b);
        lemma_one_done::<MixedC2cInPlaceTask<R, N, M>, MixedError, MixedC2cInPlaceCrew<G, Z, N, M>>(home, step, c, d);
        assert(there.core.stages@[stage].input == there.core.stages@[stage].output);
        assert(there.kernels@.len() == there.core.stages@.len());
        let out = there.core.spec_station(there.direction, step, &there.kernels@[stage]);
        let back = home.core.spec_station(home.direction, step, &home.kernels@[stage]);
        lemma_applied_maps::<Complex<R>, MixedError, MixedComplexStation<F, N, M>, N, M>(
            out,
            a.0.array,
            b.0.array,
            a.1.line_buffer@.len() as usize,
        );
        lemma_applied_maps::<Complex<R>, MixedError, MixedComplexStation<G, N, M>, N, M>(
            back,
            c.0.array,
            d.0.array,
            c.1.line_buffer@.len() as usize,
        );
        law_mixed_station_scaled::<Complex<R>, F, G, N, M>(
            out,
            back,
            times,
            factor,
            active_values(a.0.array),
            active_values(b.0.array),
            active_values(d.0.array),
        );
    } else {
        let step = exchange_step(stage, Slot::Complex, Mode::InPlace, agreed);
        assert(index == 2 * stage + 1);
        assert((index + 1) / 2 == stage + 1 && (index + 2) / 2 == stage + 1);
        assert(route.move_there(Mode::InPlace, index, eager.0) =~= seq![step]);
        assert(route.move_home(Mode::InPlace, index, eager.1) =~= seq![step]);
        lemma_one_done::<MixedC2cInPlaceTask<R, N, M>, MixedError, MixedC2cInPlaceCrew<F, X, N, M>>(there, step, a, b);
        lemma_one_done::<MixedC2cInPlaceTask<R, N, M>, MixedError, MixedC2cInPlaceCrew<G, Z, N, M>>(home, step, c, d);
        let sent = (b.0.array, b.1.transpose);
        let returned = (c.0.array, c.1.transpose);
        lemma_exchanged::<Complex<R>, MixedError, X, N, M>(
            *there.exchange,
            there.core.transitions@,
            Direction::Forward,
            stage as usize,
            (a.0.array, a.1.transpose),
            sent,
        );
        lemma_exchanged::<Complex<R>, MixedError, Z, N, M>(
            *home.exchange,
            home.core.transitions@,
            home.direction,
            stage as usize,
            returned,
            (d.0.array, d.1.transpose),
        );
        assert(active_values(returned.0) == scaled(times, factor, active_values(sent.0)));
    }
}

/// A forward execution of a mixed complex plan in place and its way back without normalization give
/// back the values times the product of the gains of all stages, with kernels that lead back to
/// multiples and exchanges that undo those of the first.
pub proof fn law_mixed_c2c_backward_scales_in_place<R: FftReal, F: Fn(&[Complex<R>], usize) -> Result<Vec<Complex<R>>, LocalError>, G: Fn(&[Complex<R>], usize) -> Result<Vec<Complex<R>>, LocalError>, X: Fn(usize, Passage, Load<Complex<R>, N, M>) -> (Load<Complex<R>, N, M>, Result<(), FftError>), Z: Fn(usize, Passage, Load<Complex<R>, N, M>) -> (Load<Complex<R>, N, M>, Result<(), FftError>), A: Fn(bool) -> bool, B: Fn(bool) -> bool, const N: usize, const M: usize>(
    there: MixedC2cInPlaceCrew<F, X, N, M>,
    home: MixedC2cInPlaceCrew<G, Z, N, M>,
    times: spec_fn(int, Complex<R>) -> Complex<R>,
    agree: (A, B),
    eager: (Seq<bool>, Seq<bool>),
    start: MixedC2cInPlaceTask<R, N, M>,
    turn: MixedC2cInPlaceTask<R, N, M>,
    from: MixedC2cInPlaceTask<R, N, M>,
    end: MixedC2cInPlaceTask<R, N, M>,
)
    requires
        Crew::<MixedC2cInPlaceTask<R, N, M>, MixedError>::able(&there),
        Crew::<MixedC2cInPlaceTask<R, N, M>, MixedError>::able(&home),
        mixed_c2c_undone_scaled_in_place::<R, F, G, X, Z, N, M>(there, home, times),
        steps_run::<MixedC2cInPlaceTask<R, N, M>, MixedError, InTurn<MixedC2cInPlaceCrew<F, X, N, M>>, A>(
            InTurn { crew: &there },
            agree.0,
            there.core.itinerary().list(Direction::Forward, Mode::InPlace, eager.0),
            start,
            turn,
            Ok(()),
        ),
        active_values(from.0.array) == active_values(turn.0.array),
        steps_run::<MixedC2cInPlaceTask<R, N, M>, MixedError, InTurn<MixedC2cInPlaceCrew<G, Z, N, M>>, B>(
            InTurn { crew: &home },
            agree.1,
            there.core.itinerary().list(home.direction, Mode::InPlace, eager.1),
            from,
            end,
            Ok(()),
        ),
    ensures
        active_values(end.0.array) == scaled(times, gains_from(mixed_c2c_gains(*there.core), 0), active_values(start.0.array)),
{
    let route = there.core.itinerary();
    let gains = mixed_c2c_gains(*there.core);
    assert(there.core.stages.len() == there.core.stages@.len());
    assert(there.core.locals@.len() == there.core.stages@.len());
    let out = route.forward_list(Mode::InPlace, eager.0);
    let back = route.reverse_list(Mode::InPlace, eager.1);
    lemma_pieces_all_done::<MixedC2cInPlaceTask<R, N, M>, MixedError, MixedC2cInPlaceCrew<F, X, N, M>, A>(there, agree.0, out, out.len() as int, start, turn);
    lemma_pieces_all_done::<MixedC2cInPlaceTask<R, N, M>, MixedError, MixedC2cInPlaceCrew<G, Z, N, M>, B>(home, agree.1, back, back.len() as int, from, end);
    assert(out.take(out.len() as int) =~= out);
    assert(back.take(back.len() as int) =~= back);
    route.lemma_forward_walks::<MixedC2cInPlaceTask<R, N, M>, MixedError, MixedC2cInPlaceCrew<F, X, N, M>>(there, Mode::InPlace, eager.0, start, turn);
    route.lemma_reverse_walks::<MixedC2cInPlaceTask<R, N, M>, MixedError, MixedC2cInPlaceCrew<G, Z, N, M>>(home, Mode::InPlace, eager.1, from, end);
    let makes_there = route.makes_there::<MixedC2cInPlaceTask<R, N, M>, MixedError, MixedC2cInPlaceCrew<F, X, N, M>>(there, Mode::InPlace, eager.0);
    let makes_home = route.makes_home::<MixedC2cInPlaceTask<R, N, M>, MixedError, MixedC2cInPlaceCrew<G, Z, N, M>>(home, Mode::InPlace, eager.1);
    let moves = route.moves();
    let related = |index: int, c: MixedC2cInPlaceTask<R, N, M>, b: MixedC2cInPlaceTask<R, N, M>|
        active_values(c.0.array) == scaled(times, gains_from(gains, (index + 1) / 2), active_values(b.0.array));
    assert forall|index: int, a: MixedC2cInPlaceTask<R, N, M>, b: MixedC2cInPlaceTask<R, N, M>, c: MixedC2cInPlaceTask<R, N, M>, d: MixedC2cInPlaceTask<R, N, M>|
        0 <= index < moves && #[trigger] walked(makes_there, index, a, b) && #[trigger] walked(
            makes_home,
            index,
            c,
            d,
        ) && related(index + 1, c, b) implies related(index, d, a) by {
        lemma_kept_move_scaled::<R, F, G, X, Z, N, M>(there, home, times, route, eager, index, a, b, c, d);
    }
    assert(gains_from(gains, (moves + 1) / 2) == 1);
    assert(scaled(times, 1, active_values(turn.0.array)) =~= active_values(turn.0.array));
    assert(related(moves, from, turn));
    law_way_back_by(makes_there, makes_home, related, moves, start, turn, from, end);
    assert(related(0, end, start));
}

} // verus!
