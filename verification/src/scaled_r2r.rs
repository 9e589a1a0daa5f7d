//! What an execution of a real-to-real or Hartley plan and its way back without normalization leave
//! of the values.

use vstd::prelude::*;

use crate::carrier::Load;
use crate::crew::Crew;
use crate::crew::InTurn;
use crate::crew::all_done;
use crate::crew_r2r::R2rCrew;
use crate::crew_r2r::R2rInPlaceCrew;
use crate::crew_r2r::R2rInPlaceTask;
use crate::crew_r2r::R2rTask;
use crate::error::FftError;
use crate::error::LocalR2rError;
use crate::error::R2rError;
use crate::kernels::R2rStation;
use crate::layout::Direction;
use crate::r2r::R2rCore;
use crate::round_r2r::lemma_stage_home;
use crate::round_r2r::lemma_stage_there;
use crate::round_r2r::seen_home;
use crate::round_r2r::seen_there;
use crate::round_trip::active_values;
use crate::round_trip::keeps_len;
use crate::round_trip::lemma_applied_maps;
use crate::round_trip::lemma_exchanged;
use crate::round_trip::lemma_one_done;
use crate::run::steps_run;
use crate::scalar::Complex;
use crate::scalar::R2rScalar;
use crate::scaled::exchanges_undone_scaled;
use crate::scaled::gains_from;
use crate::scaled::law_r2r_station_scaled;
use crate::scaled::once_keeps;
use crate::scaled::r2r_gain;
use crate::scaled::returns_scaled;
use crate::scaled::scaled;
use crate::schedule::Itinerary;
use crate::schedule::Mode;
use crate::schedule::Slot;
use crate::schedule::exchange_step;
use crate::schedule::kernel_step;
use crate::transition::Passage;
use crate::walk::law_way_back_by;
use crate::walk::lemma_pieces_all_done;
use crate::walk::walked;

verus! {

/// How often the values of each stage come back: the normalization factor of its kernel, or once
/// where it has none.
pub open spec fn r2r_gains<const N: usize, const M: usize>(core: R2rCore<N, M>) -> Seq<int> {
    Seq::new(core.locals@.len(), |i: int| r2r_gain(core.locals@[i]))
}

/// The kernels and exchanges of the way back undo those of the way there up to the gains of the
/// stages.
pub open spec fn r2r_undone_scaled<T: R2rScalar, F: Fn(&[T], usize) -> Result<Vec<T>, LocalR2rError>, G: Fn(&[T], usize) -> Result<Vec<T>, LocalR2rError>, X: Fn(usize, Passage, Load<T, N, M>) -> (Load<T, N, M>, Result<(), FftError>), Z: Fn(usize, Passage, Load<T, N, M>) -> (Load<T, N, M>, Result<(), FftError>), const N: usize, const M: usize>(
    there: R2rCrew<T, F, X, N, M>,
    home: R2rCrew<T, G, Z, N, M>,
    times: spec_fn(int, T) -> T,
) -> bool {
    &&& *home.core == *there.core
    &&& there.direction == Direction::Forward
    &&& home.direction == Direction::Backward
    &&& once_keeps(times)
    &&& forall|i: int|
        0 <= i < there.kernels@.len() ==> returns_scaled::<T, T, LocalR2rError, F, G>(
            #[trigger] there.kernels@[i],
            home.kernels@[i],
            (times, times),
            r2r_gains(*there.core)[i],
        ) && keeps_len::<T, T, LocalR2rError, F>(there.kernels@[i]) && keeps_len::<T, T, LocalR2rError, G>(
            home.kernels@[i],
        )
    &&& exchanges_undone_scaled::<T, X, Z, N, M>(
        *there.exchange,
        *home.exchange,
        there.core.transitions@,
        home.direction,
        times,
    )
}

proof fn lemma_move_scaled<T: R2rScalar, F: Fn(&[T], usize) -> Result<Vec<T>, LocalR2rError>, G: Fn(&[T], usize) -> Result<Vec<T>, LocalR2rError>, X: Fn(usize, Passage, Load<T, N, M>) -> (Load<T, N, M>, Result<(), FftError>), Z: Fn(usize, Passage, Load<T, N, M>) -> (Load<T, N, M>, Result<(), FftError>), const N: usize, const M: usize>(
    there: R2rCrew<T, F, X, N, M>,
    home: R2rCrew<T, G, Z, N, M>,
    times: spec_fn(int, T) -> T,
    route: Itinerary,
    eager: (Seq<bool>, Seq<bool>),
    index: int,
    a: R2rTask<T, N, M>,
    b: R2rTask<T, N, M>,
    c: R2rTask<T, N, M>,
    d: R2rTask<T, N, M>,
)
    requires
        there.able(),
        home.able(),
        r2r_undone_scaled::<T, F, G, X, Z, N, M>(there, home, times),
        route == there.core.itinerary(),
        route.wf(),
        route.stages == there.core.stages@.len(),
        0 <= index < route.moves(),
        all_done::<R2rTask<T, N, M>, R2rError, R2rCrew<T, F, X, N, M>>(
            there,
            route.move_there(Mode::OutOfPlace, index, eager.0),
            a,
            b,
        ),
        all_done::<R2rTask<T, N, M>, R2rError, R2rCrew<T, G, Z, N, M>>(
            home,
            route.move_home(Mode::OutOfPlace, index, eager.1),
            c,
            d,
        ),
        seen_home(home, route.moves(), index + 1, c) == scaled(times, gains_from(r2r_gains(*there.core), (index + 2) / 2), seen_there(there, route.moves(), index + 1, b)),
    ensures
        seen_home(home, route.moves(), index, d) == scaled(times, gains_from(r2r_gains(*there.core), (index + 1) / 2), seen_there(there, route.moves(), index, a)),
{
    let stage = index / 2;
    let gains = r2r_gains(*there.core);
    let factor = gains_from(gains, stage + 1);
    assert(there.core.stages.len() == there.core.stages@.len());
    assert(there.core.locals@.len() == there.core.stages@.len());
    if index % 2 == 0 {
        assert(index == 2 * stage);
        assert(gains_from(gains, stage) == factor * gains[stage]);
        assert((index + 1) / 2 == stage && (index + 2) / 2 == stage + 1);
        assert(factor * 1 == factor);
        let out = lemma_stage_there(there, route, eager.0, stage, a, b);
        let back = lemma_stage_home(home, route, eager.1, stage, c, d);
        assert(there.core.stages@[stage].input == there.core.stages@[stage].output);
        assert(there.kernels@.len() == there.core.stages@.len());
        law_r2r_station_scaled::<T, F, G, N, M>(
            there.core.spec_station(there.direction, out, &there.kernels@[stage]),
            home.core.spec_station(home.direction, back, &home.kernels@[stage]),
            times,
            factor,
            seen_there(there, route.moves(), index, a),
            seen_there(there, route.moves(), index + 1, b),
            seen_home(home, route.moves(), index, d),
        );
    } else {
        let at = Slot::Complex;
        let step = exchange_step(stage, at, Mode::OutOfPlace, route.kind.spec_agrees());
        assert(index == 2 * stage + 1);
        assert((index + 1) / 2 == stage + 1 && (index + 2) / 2 == stage + 1);
        assert(route.move_there(Mode::OutOfPlace, index, eager.0) =~= seq![step]);
        assert(route.move_home(Mode::OutOfPlace, index, eager.1) =~= seq![step]);
        lemma_one_done::<R2rTask<T, N, M>, R2rError, R2rCrew<T, F, X, N, M>>(there, step, a, b);
        lemma_one_done::<R2rTask<T, N, M>, R2rError, R2rCrew<T, G, Z, N, M>>(home, step, c, d);
        let sent = (b.1.intermediate, b.1.transpose);
        let returned = (c.1.intermediate, c.1.transpose);
        lemma_exchanged::<T, R2rError, X, N, M>(
            *there.exchange,
            there.core.transitions@,
            Direction::Forward,
            stage as usize,
            (a.1.intermediate, a.1.transpose),
            sent,
        );
        lemma_exchanged::<T, R2rError, Z, N, M>(
            *home.exchange,
            home.core.transitions@,
            home.direction,
            stage as usize,
            returned,
            (d.1.intermediate, d.1.transpose),
        );
        assert(active_values(returned.0) == scaled(times, factor, active_values(sent.0)));
    }
}

/// A forward execution of a real-to-real or Hartley plan out of place and its way back without
/// normalization give back the values times the product of the gains of all stages, with kernels
/// that lead back to multiples and exchanges that undo those of the first.
pub proof fn law_r2r_backward_scales<T: R2rScalar, F: Fn(&[T], usize) -> Result<Vec<T>, LocalR2rError>, G: Fn(&[T], usize) -> Result<Vec<T>, LocalR2rError>, X: Fn(usize, Passage, Load<T, N, M>) -> (Load<T, N, M>, Result<(), FftError>), Z: Fn(usize, Passage, Load<T, N, M>) -> (Load<T, N, M>, Result<(), FftError>), A: Fn(bool) -> bool, B: Fn(bool) -> bool, const N: usize, const M: usize>(
    there: R2rCrew<T, F, X, N, M>,
    home: R2rCrew<T, G, Z, N, M>,
    times: spec_fn(int, T) -> T,
    agree: (A, B),
    eager: (Seq<bool>, Seq<bool>),
    start: R2rTask<T, N, M>,
    turn: R2rTask<T, N, M>,
    from: R2rTask<T, N, M>,
    end: R2rTask<T, N, M>,
)
    requires
        there.able(),
        home.able(),
        r2r_undone_scaled::<T, F, G, X, Z, N, M>(there, home, times),
        steps_run::<R2rTask<T, N, M>, R2rError, InTurn<R2rCrew<T, F, X, N, M>>, A>(
            InTurn { crew: &there },
            agree.0,
            there.core.itinerary().list(Direction::Forward, Mode::OutOfPlace, eager.0),
            start,
            turn,
            Ok(()),
        ),
        home.source.data@ == turn.0.data@,
        steps_run::<R2rTask<T, N, M>, R2rError, InTurn<R2rCrew<T, G, Z, N, M>>, B>(
            InTurn { crew: &home },
            agree.1,
            there.core.itinerary().list(home.direction, Mode::OutOfPlace, eager.1),
            from,
            end,
            Ok(()),
        ),
    ensures
        end.0.data@ == scaled(times, gains_from(r2r_gains(*there.core), 0), there.source.data@),
{
    let route = there.core.itinerary();
    let gains = r2r_gains(*there.core);
    assert(there.core.stages.len() == there.core.stages@.len());
    assert(there.core.locals@.len() == there.core.stages@.len());
    let out = route.forward_list(Mode::OutOfPlace, eager.0);
    let back = route.reverse_list(Mode::OutOfPlace, eager.1);
    lemma_pieces_all_done::<R2rTask<T, N, M>, R2rError, R2rCrew<T, F, X, N, M>, A>(there, agree.0, out, out.len() as int, start, turn);
    lemma_pieces_all_done::<R2rTask<T, N, M>, R2rError, R2rCrew<T, G, Z, N, M>, B>(home, agree.1, back, back.len() as int, from, end);
    assert(out.take(out.len() as int) =~= out);
    assert(back.take(back.len() as int) =~= back);
    route.lemma_forward_walks::<R2rTask<T, N, M>, R2rError, R2rCrew<T, F, X, N, M>>(there, Mode::OutOfPlace, eager.0, start, turn);
    route.lemma_reverse_walks::<R2rTask<T, N, M>, R2rError, R2rCrew<T, G, Z, N, M>>(home, Mode::OutOfPlace, eager.1, from, end);
    let makes_there = route.makes_there::<R2rTask<T, N, M>, R2rError, R2rCrew<T, F, X, N, M>>(there, Mode::OutOfPlace, eager.0);
    let makes_home = route.makes_home::<R2rTask<T, N, M>, R2rError, R2rCrew<T, G, Z, N, M>>(home, Mode::OutOfPlace, eager.1);
    let moves = route.moves();
    let related = |index: int, c: R2rTask<T, N, M>, b: R2rTask<T, N, M>|
        seen_home(home, moves, index, c) == scaled(times, gains_from(gains, (index + 1) / 2), seen_there(there, moves, index, b));
    assert forall|index: int, a: R2rTask<T, N, M>, b: R2rTask<T, N, M>, c: R2rTask<T, N, M>, d: R2rTask<T, N, M>|
        0 <= index < moves && #[trigger] walked(makes_there, index, a, b) && #[trigger] walked(
            makes_home,
            index,
            c,
            d,
        ) && related(index + 1, c, b) implies related(index, d, a) by {
        lemma_move_scaled::<T, F, G, X, Z, N, M>(there, home, times, route, eager, index, a, b, c, d);
    }
    assert(gains_from(gains, (moves + 1) / 2) == 1);
    assert(scaled(times, 1, turn.0.data@) =~= turn.0.data@);
    assert(related(moves, from, turn));
    law_way_back_by(makes_there, makes_home, related, moves, start, turn, from, end);
    assert(related(0, end, start));
}

/// The kernels and exchanges of the way back in place undo those of the way there up to the gains
/// of the stages.
pub open spec fn r2r_undone_scaled_in_place<T: R2rScalar, F: Fn(&[T], usize) -> Result<Vec<T>, LocalR2rError>, G: Fn(&[T], usize) -> Result<Vec<T>, LocalR2rError>, X: Fn(usize, Passage, Load<T, N, M>) -> (Load<T, N, M>, Result<(), FftError>), Z: Fn(usize, Passage, Load<T, N, M>) -> (Load<T, N, M>, Result<(), FftError>), const N: usize, const M: usize>(
    there: R2rInPlaceCrew<F, X, N, M>,
    home: R2rInPlaceCrew<G, Z, N, M>,
    times: spec_fn(int, T) -> T,
) -> bool {
    &&& *home.core == *there.core
    &&& there.direction == Direction::Forward
    &&& home.direction == Direction::Backward
    &&& once_keeps(times)
    &&& forall|i: int|
        0 <= i < there.kernels@.len() ==> returns_scaled::<T, T, LocalR2rError, F, G>(
            #[trigger] there.kernels@[i],
            home.kernels@[i],
            (times, times),
            r2r_gains(*there.core)[i],
        ) && keeps_len::<T, T, LocalR2rError, F>(there.kernels@[i]) && keeps_len::<T, T, LocalR2rError, G>(
            home.kernels@[i],
        )
    &&& exchanges_undone_scaled::<T, X, Z, N, M>(
        *there.exchange,
        *home.exchange,
        there.core.transitions@,
        home.direction,
        times,
    )
}

proof fn lemma_kept_move_scaled<T: R2rScalar, F: Fn(&[T], usize) -> Result<Vec<T>, LocalR2rError>, G: Fn(&[T], usize) -> Result<Vec<T>, LocalR2rError>, X: Fn(usize, Passage, Load<T, N, M>) -> (Load<T, N, M>, Result<(), FftError>), Z: Fn(usize, Passage, Load<T, N, M>) -> (Load<T, N, M>, Result<(), FftError>), const N: usize, const M: usize>(
    there: R2rInPlaceCrew<F, X, N, M>,
    home: R2rInPlaceCrew<G, Z, N, M>,
    times: spec_fn(int, T) -> T,
    route: Itinerary,
    eager: (Seq<bool>, Seq<bool>),
    index: int,
    a: R2rInPlaceTask<T, N, M>,
    b: R2rInPlaceTask<T, N, M>,
    c: R2rInPlaceTask<T, N, M>,
    d: R2rInPlaceTask<T, N, M>,
)
    requires
        Crew::<R2rInPlaceTask<T, N, M>, R2rError>::able(&there),
        Crew::<R2rInPlaceTask<T, N, M>, R2rError>::able(&home),
        r2r_undone_scaled_in_place::<T, F, G, X, Z, N, M>(there, home, times),
        route == there.core.itinerary(),
        route.wf(),
        route.stages == there.core.stages@.len(),
        0 <= index < route.moves(),
        all_done::<R2rInPlaceTask<T, N, M>, R2rError, R2rInPlaceCrew<F, X, N, M>>(
            there,
            route.move_there(Mode::InPlace, index, eager.0),
            a,
            b,
        ),
        all_done::<R2rInPlaceTask<T, N, M>, R2rError, R2rInPlaceCrew<G, Z, N, M>>(
            home,
            route.move_home(Mode::InPlace, index, eager.1),
            c,
            d,
        ),
        active_values(c.0.array) == scaled(times, gains_from(r2r_gains(*there.core), (index + 2) / 2), active_values(b.0.array)),
    ensures
        active_values(d.0.array) == scaled(times, gains_from(r2r_gains(*there.core), (index + 1) / 2), active_values(a.0.array)),
{
    let stage = index / 2;
    let gains = r2r_gains(*there.core);
    let factor = gains_from(gains, stage + 1);
    let agreed = route.kind.spec_agrees();
    assert(there.core.stages.len() == there.core.stages@.len());
    assert(there.core.locals@.len() == there.core.stages@.len());
    if index % 2 == 0 {
        assert(index == 2 * stage);
        assert(gains_from(gains, stage) == factor * gains[stage]);
        assert((index + 1) / 2 == stage && (index + 2) / 2 == stage + 1);
        assert(factor * 1 == factor);
        let step = kernel_step(stage, Slot::Complex, Slot::Complex, Mode::InPlace, agreed, false);
        assert(route.move_there(Mode::InPlace, index, eager.0) =~= seq![step]);
        assert(route.move_home(Mode::InPlace, index, eager.1) =~= seq![step]);
        lemma_one_done::<R2rInPlaceTask<T, N, M>, R2rError, R2rInPlaceCrew<F, X, N, M>>(there, step, a, b);
        lemma_one_done::<R2rInPlaceTask<T, N, M>, R2rError, R2rInPlaceCrew<G, Z, N, M>>(home, step, c, d);
        assert(there.core.stages@[stage].input == there.core.stages@[stage].output);
        assert(there.kernels@.len() == there.core.stages@.len());
        let out = there.core.spec_station(there.direction, step, &there.kernels@[stage]);
        let back = home.core.spec_station(home.direction, step, &home.kernels@[stage]);
        lemma_applied_maps::<T, R2rError, R2rStation<F, N, M>, N, M>(
            out,
            a.0.array,
            b.0.array,
            a.1.line_buffer@.len() as usize,
        );
        lemma_applied_maps::<T, R2rError, R2rStation<G, N, M>, N, M>(
            back,
            c.0.array,
            d.0.array,
            c.1.line_buffer@.len() as usize,
        );
        law_r2r_station_scaled::<T, F, G, N, M>(
            out,
            back,
            times,
            factor,
            active_values(a.0.array),
            active_values(b.0.array),
            active_values(d.0.array),
        );
    } else {
        let step = exchange_step(stage, Slot::Complex, Mode::InPlace, agreed);
        assert(index == 2 * stage + 1);
        assert((index + 1) / 2 == stage + 1 && (index + 2) / 2 == stage + 1);
        assert(route.move_there(Mode::InPlace, index, eager.0) =~= seq![step]);
        assert(route.move_home(Mode::InPlace, index, eager.1) =~= seq![step]);
        lemma_one_done::<R2rInPlaceTask<T, N, M>, R2rError, R2rInPlaceCrew<F, X, N, M>>(there, step, a, b);
        lemma_one_done::<R2rInPlaceTask<T, N, M>, R2rError, R2rInPlaceCrew<G, Z, N, M>>(home, step, c, d);
        let sent = (b.0.array, b.1.transpose);
        let returned = (c.0.array, c.1.transpose);
        lemma_exchanged::<T, R2rError, X, N, M>(
            *there.exchange,
            there.core.transitions@,
            Direction::Forward,
            stage as usize,
            (a.0.array, a.1.transpose),
            sent,
        );
        lemma_exchanged::<T, R2rError, Z, N, M>(
            *home.exchange,
            home.core.transitions@,
            home.direction,
            stage as usize,
            returned,
            (d.0.array, d.1.transpose),
        );
        assert(active_values(returned.0) == scaled(times, factor, active_values(sent.0)));
    }
}

/// A forward execution of a real-to-real or Hartley plan in place and its way back without
/// normalization give back the values times the product of the gains of all stages, with kernels
/// that lead back to multiples and exchanges that undo those of the first.
pub proof fn law_r2r_backward_scales_in_place<T: R2rScalar, F: Fn(&[T], usize) -> Result<Vec<T>, LocalR2rError>, G: Fn(&[T], usize) -> Result<Vec<T>, LocalR2rError>, X: Fn(usize, Passage, Load<T, N, M>) -> (Load<T, N, M>, Result<(), FftError>), Z: Fn(usize, Passage, Load<T, N, M>) -> (Load<T, N, M>, Result<(), FftError>), A: Fn(bool) -> bool, B: Fn(bool) -> bool, const N: usize, const M: usize>(
    there: R2rInPlaceCrew<F, X, N, M>,
    home: R2rInPlaceCrew<G, Z, N, M>,
    times: spec_fn(int, T) -> T,
    agree: (A, B),
    eager: (Seq<bool>, Seq<bool>),
    start: R2rInPlaceTask<T, N, M>,
    turn: R2rInPlaceTask<T, N, M>,
    from: R2rInPlaceTask<T, N, M>,
    end: R2rInPlaceTask<T, N, M>,
)
    requires
        Crew::<R2rInPlaceTask<T, N, M>, R2rError>::able(&there),
        Crew::<R2rInPlaceTask<T, N, M>, R2rError>::able(&home),
        r2r_undone_scaled_in_place::<T, F, G, X, Z, N, M>(there, home, times),
        steps_run::<R2rInPlaceTask<T, N, M>, R2rError, InTurn<R2rInPlaceCrew<F, X, N, M>>, A>(
            InTurn { crew: &there },
            agree.0,
            there.core.itinerary().list(Direction::Forward, Mode::InPlace, eager.0),
            start,
            turn,
            Ok(()),
        ),
        active_values(from.0.array) == active_values(turn.0.array),
        steps_run::<R2rInPlaceTask<T, N, M>, R2rError, InTurn<R2rInPlaceCrew<G, Z, N, M>>, B>(
            InTurn { crew: &home },
            agree.1,
            there.core.itinerary().list(home.direction, Mode::InPlace, eager.1),
            from,
            end,
            Ok(()),
        ),
    ensures
        active_values(end.0.array) == scaled(times, gains_from(r2r_gains(*there.core), 0), active_values(start.0.array)),
{
    let route = there.core.itinerary();
    let gains = r2r_gains(*there.core);
    assert(there.core.stages.len() == there.core.stages@.len());
    assert(there.core.locals@.len() == there.core.stages@.len());
    let out = route.forward_list(Mode::InPlace, eager.0);
    let back = route.reverse_list(Mode::InPlace, eager.1);
    lemma_pieces_all_done::<R2rInPlaceTask<T, N, M>, R2rError, R2rInPlaceCrew<F, X, N, M>, A>(there, agree.0, out, out.len() as int, start, turn);
    lemma_pieces_all_done::<R2rInPlaceTask<T, N, M>, R2rError, R2rInPlaceCrew<G, Z, N, M>, B>(home, agree.1, back, back.len() as int, from, end);
    assert(out.take(out.len() as int) =~= out);
    assert(back.take(back.len() as int) =~= back);
    route.lemma_forward_walks::<R2rInPlaceTask<T, N, M>, R2rError, R2rInPlaceCrew<F, X, N, M>>(there, Mode::InPlace, eager.0, start, turn);
    route.lemma_reverse_walks::<R2rInPlaceTask<T, N, M>, R2rError, R2rInPlaceCrew<G, Z, N, M>>(home, Mode::InPlace, eager.1, from, end);
    let makes_there = route.makes_there::<R2rInPlaceTask<T, N, M>, R2rError, R2rInPlaceCrew<F, X, N, M>>(there, Mode::InPlace, eager.0);
    let makes_home = route.makes_home::<R2rInPlaceTask<T, N, M>, R2rError, R2rInPlaceCrew<G, Z, N, M>>(home, Mode::InPlace, eager.1);
    let moves = route.moves();
    let related = |index: int, c: R2rInPlaceTask<T, N, M>, b: R2rInPlaceTask<T, N, M>|
        active_values(c.0.array) == scaled(times, gains_from(gains, (index + 1) / 2), active_values(b.0.array));
    assert forall|index: int, a: R2rInPlaceTask<T, N, M>, b: R2rInPlaceTask<T, N, M>, c: R2rInPlaceTask<T, N, M>, d: R2rInPlaceTask<T, N, M>|
        0 <= index < moves && #[trigger] walked(makes_there, index, a, b) && #[trigger] walked(
            makes_home,
            index,
            c,
            d,
        ) && related(index + 1, c, b) implies related(index, d, a) by {
        lemma_kept_move_scaled::<T, F, G, X, Z, N, M>(there, home, times, route, eager, index, a, b, c, d);
    }
    assert(gains_from(gains, (moves + 1) / 2) == 1);
    assert(scaled(times, 1, active_values(turn.0.array)) =~= active_values(turn.0.array));
    assert(related(moves, from, turn));
    law_way_back_by(makes_there, makes_home, related, moves, start, turn, from, end);
    assert(related(0, end, start));
}

} // verus!
