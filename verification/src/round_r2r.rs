//! What an execution of a real-to-real or Hartley plan and its way back leave of the values.

use vstd::prelude::*;

use crate::carrier::Load;
use crate::crew::all_done;
use crate::crew::Crew;
use crate::crew::InTurn;
use crate::crew_r2r::R2rCrew;
use crate::crew_r2r::R2rInPlaceCrew;
use crate::crew_r2r::R2rInPlaceTask;
use crate::crew_r2r::R2rTask;
use crate::error::FftError;
use crate::error::LocalR2rError;
use crate::error::R2rError;
use crate::kernels::R2rStation;
use crate::layout::Direction;
use crate::round_trip::active_values;
use crate::round_trip::exchanges_undone;
use crate::round_trip::held;
use crate::round_trip::kernels_undone;
use crate::round_trip::law_r2r_station_undone;
use crate::round_trip::lemma_applied_maps;
use crate::round_trip::lemma_exchanged;
use crate::round_trip::lemma_one_done;
use crate::round_trip::lemma_step_maps;
use crate::round_trip::maps;
use crate::run::steps_run;
use crate::scalar::R2rScalar;
use crate::schedule::exchange_step;
use crate::schedule::kernel_step;
use crate::schedule::Itinerary;
use crate::schedule::Mode;
use crate::schedule::Slot;
use crate::schedule::Step;
use crate::schedule::Work;
use crate::transition::Passage;
use crate::walk::law_way_back;
use crate::walk::lemma_pieces_all_done;
use crate::walk::walked;

verus! {

/// A kernel step that succeeds turns the values in front of it into those behind it.
proof fn lemma_kernel_maps<T: R2rScalar, F: Fn(&[T], usize) -> Result<Vec<T>, LocalR2rError>, X: Fn(usize, Passage, Load<T, N, M>) -> (Load<T, N, M>, Result<(), FftError>), const N: usize, const M: usize>(
    crew: R2rCrew<T, F, X, N, M>,
    step: Step,
    stage: int,
    before: R2rTask<T, N, M>,
    after: R2rTask<T, N, M>,
)
    requires
        step.work == Work::Kernel(stage as usize),
        0 <= stage < crew.core.stages@.len(),
        crew.core.stages@.len() <= usize::MAX,
        crew.does(step, before, after, Ok(())),
    ensures
        maps::<T, T, R2rError, R2rStation<F, N, M>>(
            crew.core.spec_station(crew.direction, step, &crew.kernels@[stage]),
            held(step.from, crew.source.data@, before.1.intermediate, before.0.data@),
            held(step.to, crew.source.data@, after.1.intermediate, after.0.data@),
        ),
{
    lemma_step_maps::<T, R2rError, R2rStation<F, N, M>, N, M>(
        crew.core.spec_station(crew.direction, step, &crew.kernels@[stage]),
        step,
        crew.core.entry_pencil(crew.direction),
        crew.source.data@,
        (before.1.intermediate, after.1.intermediate),
        (before.0.data@, after.0.data@),
        before.1.line_buffer@.len() as usize,
    );
}

/// The values in front of move `index` of a forward execution.
pub open spec fn seen_there<T: R2rScalar, F, X, const N: usize, const M: usize>(
    crew: R2rCrew<T, F, X, N, M>,
    moves: int,
    index: int,
    state: R2rTask<T, N, M>,
) -> Seq<T> {
    if index <= 0 {
        crew.source.data@
    } else if index >= moves {
        state.0.data@
    } else {
        active_values(state.1.intermediate)
    }
}

/// The values behind the move of a reverse execution that undoes move `index`.
pub open spec fn seen_home<T: R2rScalar, F, X, const N: usize, const M: usize>(
    crew: R2rCrew<T, F, X, N, M>,
    moves: int,
    index: int,
    state: R2rTask<T, N, M>,
) -> Seq<T> {
    if index >= moves {
        crew.source.data@
    } else if index <= 0 {
        state.0.data@
    } else {
        active_values(state.1.intermediate)
    }
}

pub proof fn lemma_stage_there<T: R2rScalar, F: Fn(&[T], usize) -> Result<Vec<T>, LocalR2rError>, X: Fn(usize, Passage, Load<T, N, M>) -> (Load<T, N, M>, Result<(), FftError>), const N: usize, const M: usize>(
    crew: R2rCrew<T, F, X, N, M>,
    route: Itinerary,
    eager: Seq<bool>,
    stage: int,
    before: R2rTask<T, N, M>,
    after: R2rTask<T, N, M>,
) -> (step: Step)
    requires
        crew.core.wf(),
        route == crew.core.itinerary(),
        route.wf(),
        route.stages == crew.core.stages@.len(),
        0 <= stage <= route.last(),
        all_done::<R2rTask<T, N, M>, R2rError, R2rCrew<T, F, X, N, M>>(
            crew,
            route.stage_there(Mode::OutOfPlace, stage, eager),
            before,
            after,
        ),
    ensures
        step.work == Work::Kernel(stage as usize),
        maps::<T, T, R2rError, R2rStation<F, N, M>>(
            crew.core.spec_station(crew.direction, step, &crew.kernels@[stage]),
            seen_there(crew, route.moves(), 2 * stage, before),
            seen_there(crew, route.moves(), 2 * stage + 1, after),
        ),
{
    let list = route.stage_there(Mode::OutOfPlace, stage, eager);
    let agreed = route.kind.spec_agrees();
    let from = if stage == 0 {
        Slot::Source
    } else {
        Slot::Complex
    };
    let to = if stage == route.last() {
        Slot::Destination
    } else {
        Slot::Complex
    };
    let step = kernel_step(stage, from, to, Mode::OutOfPlace, agreed, false);
    assert(list =~= seq![step]);
    lemma_one_done::<R2rTask<T, N, M>, R2rError, R2rCrew<T, F, X, N, M>>(crew, step, before, after);
    lemma_kernel_maps(crew, step, stage, before, after);
    step
}

pub proof fn lemma_stage_home<T: R2rScalar, F: Fn(&[T], usize) -> Result<Vec<T>, LocalR2rError>, X: Fn(usize, Passage, Load<T, N, M>) -> (Load<T, N, M>, Result<(), FftError>), const N: usize, const M: usize>(
    crew: R2rCrew<T, F, X, N, M>,
    route: Itinerary,
    eager: Seq<bool>,
    stage: int,
    before: R2rTask<T, N, M>,
    after: R2rTask<T, N, M>,
) -> (step: Step)
    requires
        crew.core.wf(),
        route == crew.core.itinerary(),
        route.wf(),
        route.stages == crew.core.stages@.len(),
        0 <= stage <= route.last(),
        all_done::<R2rTask<T, N, M>, R2rError, R2rCrew<T, F, X, N, M>>(
            crew,
            route.stage_home(Mode::OutOfPlace, stage, eager),
            before,
            after,
        ),
    ensures
        step.work == Work::Kernel(stage as usize),
        maps::<T, T, R2rError, R2rStation<F, N, M>>(
            crew.core.spec_station(crew.direction, step, &crew.kernels@[stage]),
            seen_home(crew, route.moves(), 2 * stage + 1, before),
            seen_home(crew, route.moves(), 2 * stage, after),
        ),
{
    let list = route.stage_home(Mode::OutOfPlace, stage, eager);
    let agreed = route.kind.spec_agrees();
    let from = if stage == route.last() {
        Slot::Source
    } else {
        Slot::Complex
    };
    let to = if stage == 0 {
        Slot::Destination
    } else {
        Slot::Complex
    };
    let step = kernel_step(stage, from, to, Mode::OutOfPlace, agreed, false);
    assert(list =~= seq![step]);
    lemma_one_done::<R2rTask<T, N, M>, R2rError, R2rCrew<T, F, X, N, M>>(crew, step, before, after);
    lemma_kernel_maps(crew, step, stage, before, after);
    step
}

proof fn lemma_move_undone<T: R2rScalar, F: Fn(&[T], usize) -> Result<Vec<T>, LocalR2rError>, G: Fn(&[T], usize) -> Result<Vec<T>, LocalR2rError>, X: Fn(usize, Passage, Load<T, N, M>) -> (Load<T, N, M>, Result<(), FftError>), Z: Fn(usize, Passage, Load<T, N, M>) -> (Load<T, N, M>, Result<(), FftError>), const N: usize, const M: usize>(
    there: R2rCrew<T, F, X, N, M>,
    home: R2rCrew<T, G, Z, N, M>,
    route: Itinerary,
    eager: (Seq<bool>, Seq<bool>),
    index: int,
    a: R2rTask<T, N, M>,
    b: R2rTask<T, N, M>,
    c: R2rTask<T, N, M>,
    d: R2rTask<T, N, M>,
)
    requires
        there.core.wf(),
        *home.core == *there.core,
        there.direction == Direction::Forward,
        home.direction != Direction::Forward,
        route == there.core.itinerary(),
        route.wf(),
        route.stages == there.core.stages@.len(),
        there.kernels@.len() == there.core.stages@.len(),
        home.kernels@.len() == there.core.stages@.len(),
        kernels_undone::<T, LocalR2rError, F, G>(there.kernels@, home.kernels@),
        exchanges_undone::<T, X, Z, N, M>(
            *there.exchange,
            *home.exchange,
            there.core.transitions@,
            home.direction,
        ),
        0 <= index < route.moves(),
        all_done::<R2rTask<T, N, M>, R2rError, R2rCrew<T, F, X, N, M>>(
            there,
            route.move_there(Mode::OutOfPlace, index, eager.0),
            a,
            b,
        ),
        all_done::<R2rTask<T, N, M>, R2rError, R2rCrew<T, G, Z, N, M>>(
            home,
            route.move_home(Mode::OutOfPlace, index, eager.1),
            c,
            d,
        ),
        seen_home(home, route.moves(), index + 1, c) == seen_there(
            there,
            route.moves(),
            index + 1,
            b,
        ),
    ensures
        seen_home(home, route.moves(), index, d) == seen_there(there, route.moves(), index, a),
{
    let stage = index / 2;
    if index % 2 == 0 {
        assert(index == 2 * stage);
        let out = lemma_stage_there(there, route, eager.0, stage, a, b);
        let back = lemma_stage_home(home, route, eager.1, stage, c, d);
        assert(there.core.stages@[stage].input == there.core.stages@[stage].output);
        law_r2r_station_undone::<T, F, G, N, M>(
            there.core.spec_station(there.direction, out, &there.kernels@[stage]),
            home.core.spec_station(home.direction, back, &home.kernels@[stage]),
        );
    } else {
        let step = exchange_step(
            stage,
            Slot::Complex,
            Mode::OutOfPlace,
            route.kind.spec_agrees(),
        );
        assert(index == 2 * stage + 1);
        assert(route.move_there(Mode::OutOfPlace, index, eager.0) =~= seq![step]);
        assert(route.move_home(Mode::OutOfPlace, index, eager.1) =~= seq![step]);
        lemma_one_done::<R2rTask<T, N, M>, R2rError, R2rCrew<T, F, X, N, M>>(there, step, a, b);
        lemma_one_done::<R2rTask<T, N, M>, R2rError, R2rCrew<T, G, Z, N, M>>(home, step, c, d);
        lemma_exchanged::<T, R2rError, X, N, M>(
            *there.exchange,
            there.core.transitions@,
            Direction::Forward,
            stage as usize,
            (a.1.intermediate, a.1.transpose),
            (b.1.intermediate, b.1.transpose),
        );
        lemma_exchanged::<T, R2rError, Z, N, M>(
            *home.exchange,
            home.core.transitions@,
            home.direction,
            stage as usize,
            (c.1.intermediate, c.1.transpose),
            (d.1.intermediate, d.1.transpose),
        );
    }
}

/// A forward execution of a real-to-real or Hartley plan out of place and a reverse one of what it
/// made, with kernels and exchanges that undo those of the first, give back the values.
pub proof fn law_r2r_round_trip<T: R2rScalar, F: Fn(&[T], usize) -> Result<Vec<T>, LocalR2rError>, G: Fn(&[T], usize) -> Result<Vec<T>, LocalR2rError>, X: Fn(usize, Passage, Load<T, N, M>) -> (Load<T, N, M>, Result<(), FftError>), Z: Fn(usize, Passage, Load<T, N, M>) -> (Load<T, N, M>, Result<(), FftError>), A: Fn(bool) -> bool, B: Fn(bool) -> bool, const N: usize, const M: usize>(
    there: R2rCrew<T, F, X, N, M>,
    home: R2rCrew<T, G, Z, N, M>,
    agree: (A, B),
    eager: (Seq<bool>, Seq<bool>),
    start: R2rTask<T, N, M>,
    turn: R2rTask<T, N, M>,
    from: R2rTask<T, N, M>,
    end: R2rTask<T, N, M>,
)
    requires
        there.able(),
        home.able(),
        *home.core == *there.core,
        there.direction == Direction::Forward,
        home.direction != Direction::Forward,
        kernels_undone::<T, LocalR2rError, F, G>(there.kernels@, home.kernels@),
        exchanges_undone::<T, X, Z, N, M>(
            *there.exchange,
            *home.exchange,
            there.core.transitions@,
            home.direction,
        ),
        steps_run::<R2rTask<T, N, M>, R2rError, InTurn<R2rCrew<T, F, X, N, M>>, A>(
            InTurn { crew: &there },
            agree.0,
            there.core.itinerary().list(Direction::Forward, Mode::OutOfPlace, eager.0),
            start,
            turn,
            Ok(()),
        ),
        home.source.data@ == turn.0.data@,
        steps_run::<R2rTask<T, N, M>, R2rError, InTurn<R2rCrew<T, G, Z, N, M>>, B>(
            InTurn { crew: &home },
            agree.1,
            there.core.itinerary().list(home.direction, Mode::OutOfPlace, eager.1),
            from,
            end,
            Ok(()),
        ),
    ensures
        end.0.data@ == there.source.data@,
{
    let route = there.core.itinerary();
    assert(there.core.stages.len() == there.core.stages@.len());
    let out = route.forward_list(Mode::OutOfPlace, eager.0);
    let back = route.reverse_list(Mode::OutOfPlace, eager.1);
    lemma_pieces_all_done::<R2rTask<T, N, M>, R2rError, R2rCrew<T, F, X, N, M>, A>(
        there,
        agree.0,
        out,
        out.len() as int,
        start,
        turn,
    );
    lemma_pieces_all_done::<R2rTask<T, N, M>, R2rError, R2rCrew<T, G, Z, N, M>, B>(
        home,
        agree.1,
        back,
        back.len() as int,
        from,
        end,
    );
    assert(out.take(out.len() as int) =~= out);
    assert(back.take(back.len() as int) =~= back);
    route.lemma_forward_walks::<R2rTask<T, N, M>, R2rError, R2rCrew<T, F, X, N, M>>(
        there,
        Mode::OutOfPlace,
        eager.0,
        start,
        turn,
    );
    route.lemma_reverse_walks::<R2rTask<T, N, M>, R2rError, R2rCrew<T, G, Z, N, M>>(
        home,
        Mode::OutOfPlace,
        eager.1,
        from,
        end,
    );
    let makes_there = route.makes_there::<R2rTask<T, N, M>, R2rError, R2rCrew<T, F, X, N, M>>(there, Mode::OutOfPlace, eager.0);
    let makes_home = route.makes_home::<R2rTask<T, N, M>, R2rError, R2rCrew<T, G, Z, N, M>>(home, Mode::OutOfPlace, eager.1);
    let moves = route.moves();
    let see_there = |index: int, state: R2rTask<T, N, M>| seen_there(there, moves, index, state);
    let see_home = |index: int, state: R2rTask<T, N, M>| seen_home(home, moves, index, state);
    assert forall|index: int, a: R2rTask<T, N, M>, b: R2rTask<T, N, M>, c: R2rTask<T, N, M>, d: R2rTask<T, N, M>|
        0 <= index < moves && #[trigger] walked(makes_there, index, a, b) && #[trigger] walked(
            makes_home,
            index,
            c,
            d,
        ) && see_home(index + 1, c) == see_there(index + 1, b) implies see_home(index, d)
        == see_there(index, a) by {
        lemma_move_undone(there, home, route, eager, index, a, b, c, d);
    }
    law_way_back(
        makes_there,
        makes_home,
        see_there,
        see_home,
        moves,
        start,
        turn,
        from,
        end,
    );
}

proof fn lemma_kept_move_undone<T: R2rScalar, F: Fn(&[T], usize) -> Result<Vec<T>, LocalR2rError>, G: Fn(&[T], usize) -> Result<Vec<T>, LocalR2rError>, X: Fn(usize, Passage, Load<T, N, M>) -> (Load<T, N, M>, Result<(), FftError>), Z: Fn(usize, Passage, Load<T, N, M>) -> (Load<T, N, M>, Result<(), FftError>), const N: usize, const M: usize>(
    there: R2rInPlaceCrew<F, X, N, M>,
    home: R2rInPlaceCrew<G, Z, N, M>,
    route: Itinerary,
    eager: (Seq<bool>, Seq<bool>),
    index: int,
    a: R2rInPlaceTask<T, N, M>,
    b: R2rInPlaceTask<T, N, M>,
    c: R2rInPlaceTask<T, N, M>,
    d: R2rInPlaceTask<T, N, M>,
)
    requires
        there.core.wf(),
        *home.core == *there.core,
        there.direction == Direction::Forward,
        home.direction != Direction::Forward,
        route == there.core.itinerary(),
        route.wf(),
        route.stages == there.core.stages@.len(),
        there.kernels@.len() == there.core.stages@.len(),
        home.kernels@.len() == there.core.stages@.len(),
        kernels_undone::<T, LocalR2rError, F, G>(there.kernels@, home.kernels@),
        exchanges_undone::<T, X, Z, N, M>(
            *there.exchange,
            *home.exchange,
            there.core.transitions@,
            home.direction,
        ),
        0 <= index < route.moves(),
        all_done::<R2rInPlaceTask<T, N, M>, R2rError, R2rInPlaceCrew<F, X, N, M>>(
            there,
            route.move_there(Mode::InPlace, index, eager.0),
            a,
            b,
        ),
        all_done::<R2rInPlaceTask<T, N, M>, R2rError, R2rInPlaceCrew<G, Z, N, M>>(
            home,
            route.move_home(Mode::InPlace, index, eager.1),
            c,
            d,
        ),
        active_values(c.0.array) == active_values(b.0.array),
    ensures
        active_values(d.0.array) == active_values(a.0.array),
{
    let stage = index / 2;
    let agreed = route.kind.spec_agrees();
    if index % 2 == 0 {
        assert(index == 2 * stage);
        let step = kernel_step(stage, Slot::Complex, Slot::Complex, Mode::InPlace, agreed, false);
        assert(route.move_there(Mode::InPlace, index, eager.0) =~= seq![step]);
        assert(route.move_home(Mode::InPlace, index, eager.1) =~= seq![step]);
        lemma_one_done::<R2rInPlaceTask<T, N, M>, R2rError, R2rInPlaceCrew<F, X, N, M>>(there, step, a, b);
        lemma_one_done::<R2rInPlaceTask<T, N, M>, R2rError, R2rInPlaceCrew<G, Z, N, M>>(home, step, c, d);
        assert(there.core.stages@[stage].input == there.core.stages@[stage].output);
        let out = there.core.spec_station(there.direction, step, &there.kernels@[stage]);
        let back = home.core.spec_station(home.direction, step, &home.kernels@[stage]);
        lemma_applied_maps::<T, R2rError, R2rStation<F, N, M>, N, M>(
            out,
            a.0.array,
            b.0.array,
            a.1.line_buffer@.len() as usize,
        );
        lemma_applied_maps::<T, R2rError, R2rStation<G, N, M>, N, M>(
            back,
            c.0.array,
            d.0.array,
            c.1.line_buffer@.len() as usize,
        );
        law_r2r_station_undone::<T, F, G, N, M>(out, back);
    } else {
        let step = exchange_step(stage, Slot::Complex, Mode::InPlace, agreed);
        assert(index == 2 * stage + 1);
        assert(route.move_there(Mode::InPlace, index, eager.0) =~= seq![step]);
        assert(route.move_home(Mode::InPlace, index, eager.1) =~= seq![step]);
        lemma_one_done::<R2rInPlaceTask<T, N, M>, R2rError, R2rInPlaceCrew<F, X, N, M>>(there, step, a, b);
        lemma_one_done::<R2rInPlaceTask<T, N, M>, R2rError, R2rInPlaceCrew<G, Z, N, M>>(home, step, c, d);
        lemma_exchanged::<T, R2rError, X, N, M>(
            *there.exchange,
            there.core.transitions@,
            Direction::Forward,
            stage as usize,
            (a.0.array, a.1.transpose),
            (b.0.array, b.1.transpose),
        );
        lemma_exchanged::<T, R2rError, Z, N, M>(
            *home.exchange,
            home.core.transitions@,
            home.direction,
            stage as usize,
            (c.0.array, c.1.transpose),
            (d.0.array, d.1.transpose),
        );
    }
}

/// A forward execution of a real-to-real or Hartley plan in place and a reverse one of what it
/// made, with kernels and exchanges that undo those of the first, give back the values.
pub proof fn law_r2r_round_trip_in_place<T: R2rScalar, F: Fn(&[T], usize) -> Result<Vec<T>, LocalR2rError>, G: Fn(&[T], usize) -> Result<Vec<T>, LocalR2rError>, X: Fn(usize, Passage, Load<T, N, M>) -> (Load<T, N, M>, Result<(), FftError>), Z: Fn(usize, Passage, Load<T, N, M>) -> (Load<T, N, M>, Result<(), FftError>), A: Fn(bool) -> bool, B: Fn(bool) -> bool, const N: usize, const M: usize>(
    there: R2rInPlaceCrew<F, X, N, M>,
    home: R2rInPlaceCrew<G, Z, N, M>,
    agree: (A, B),
    eager: (Seq<bool>, Seq<bool>),
    start: R2rInPlaceTask<T, N, M>,
    turn: R2rInPlaceTask<T, N, M>,
    from: R2rInPlaceTask<T, N, M>,
    end: R2rInPlaceTask<T, N, M>,
)
    requires
        Crew::<R2rInPlaceTask<T, N, M>, R2rError>::able(&there),
        Crew::<R2rInPlaceTask<T, N, M>, R2rError>::able(&home),
        *home.core == *there.core,
        there.direction == Direction::Forward,
        home.direction != Direction::Forward,
        kernels_undone::<T, LocalR2rError, F, G>(there.kernels@, home.kernels@),
        exchanges_undone::<T, X, Z, N, M>(
            *there.exchange,
            *home.exchange,
            there.core.transitions@,
            home.direction,
        ),
        steps_run::<R2rInPlaceTask<T, N, M>, R2rError, InTurn<R2rInPlaceCrew<F, X, N, M>>, A>(
            InTurn { crew: &there },
            agree.0,
            there.core.itinerary().list(Direction::Forward, Mode::InPlace, eager.0),
            start,
            turn,
            Ok(()),
        ),
        active_values(from.0.array) == active_values(turn.0.array),
        steps_run::<R2rInPlaceTask<T, N, M>, R2rError, InTurn<R2rInPlaceCrew<G, Z, N, M>>, B>(
            InTurn { crew: &home },
            agree.1,
            there.core.itinerary().list(home.direction, Mode::InPlace, eager.1),
            from,
            end,
            Ok(()),
        ),
    ensures
        active_values(end.0.array) == active_values(start.0.array),
{
    let route = there.core.itinerary();
    assert(there.core.stages.len() == there.core.stages@.len());
    let out = route.forward_list(Mode::InPlace, eager.0);
    let back = route.reverse_list(Mode::InPlace, eager.1);
    lemma_pieces_all_done::<R2rInPlaceTask<T, N, M>, R2rError, R2rInPlaceCrew<F, X, N, M>, A>(
        there,
        agree.0,
        out,
        out.len() as int,
        start,
        turn,
    );
    lemma_pieces_all_done::<R2rInPlaceTask<T, N, M>, R2rError, R2rInPlaceCrew<G, Z, N, M>, B>(
        home,
        agree.1,
        back,
        back.len() as int,
        from,
        end,
    );
    assert(out.take(out.len() as int) =~= out);
    assert(back.take(back.len() as int) =~= back);
    route.lemma_forward_walks::<R2rInPlaceTask<T, N, M>, R2rError, R2rInPlaceCrew<F, X, N, M>>(
        there,
        Mode::InPlace,
        eager.0,
        start,
        turn,
    );
    route.lemma_reverse_walks::<R2rInPlaceTask<T, N, M>, R2rError, R2rInPlaceCrew<G, Z, N, M>>(
        home,
        Mode::InPlace,
        eager.1,
        from,
        end,
    );
    let makes_there = route.makes_there::<R2rInPlaceTask<T, N, M>, R2rError, R2rInPlaceCrew<F, X, N, M>>(there, Mode::InPlace, eager.0);
    let makes_home = route.makes_home::<R2rInPlaceTask<T, N, M>, R2rError, R2rInPlaceCrew<G, Z, N, M>>(home, Mode::InPlace, eager.1);
    let moves = route.moves();
    let seen = |index: int, state: R2rInPlaceTask<T, N, M>| active_values(state.0.array);
    assert forall|index: int, a: R2rInPlaceTask<T, N, M>, b: R2rInPlaceTask<T, N, M>, c: R2rInPlaceTask<T, N, M>, d: R2rInPlaceTask<T, N, M>|
        0 <= index < moves && #[trigger] walked(makes_there, index, a, b) && #[trigger] walked(
            makes_home,
            index,
            c,
            d,
        ) && seen(index + 1, c) == seen(index + 1, b) implies seen(index, d) == seen(index, a) by {
        lemma_kept_move_undone(there, home, route, eager, index, a, b, c, d);
    }
    law_way_back(makes_there, makes_home, seen, seen, moves, start, turn, from, end);
}

} // verus!
