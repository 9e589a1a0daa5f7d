//! What an execution of a mixed complex plan and its way back leave of the values.

use vstd::prelude::*;

use crate::carrier::Load;
use crate::crew::all_done;
use crate::crew::lemma_same_steps;
use crate::crew::Crew;
use crate::crew::InTurn;
use crate::crew_mixed_c2c::MixedC2cCrew;
use crate::crew_mixed_c2c::MixedC2cInPlaceCrew;
use crate::crew_mixed_c2c::MixedC2cInPlaceTask;
use crate::crew_mixed_c2c::MixedC2cOverlapCrew;
use crate::crew_mixed_c2c::MixedC2cTask;
use crate::error::FftError;
use crate::error::MixedError;
use crate::error::OverlapError;
use crate::kernels::MixedComplexStation;
use crate::layout::Direction;
use crate::round_trip::active_values;
use crate::round_trip::exchanges_undone;
use crate::round_trip::held;
use crate::round_trip::kernels_undone;
use crate::round_trip::law_mixed_station_undone;
use crate::round_trip::lemma_applied_maps;
use crate::round_trip::lemma_exchanged;
use crate::round_trip::lemma_one_done;
use crate::round_trip::lemma_step_maps;
use crate::round_trip::lemma_two_done;
use crate::round_trip::maps;
use crate::run::steps_run;
use crate::scalar::Complex;
use crate::scalar::FftReal;
use crate::schedule::copy_step;
use crate::schedule::exchange_step;
use crate::schedule::kernel_step;
use crate::schedule::Itinerary;
use crate::schedule::Mode;
use crate::schedule::Slot;
use crate::schedule::Step;
use crate::schedule::Work;
use crate::stages::LocalError;
use crate::transition::Passage;
use crate::walk::law_overlap_does_steps;
use crate::walk::law_way_back;
use crate::walk::lemma_pieces_all_done;
use crate::walk::ran_overlapped;
use crate::walk::walked;

verus! {

/// A kernel step that succeeds turns the values in front of it into those behind it.
proof fn lemma_kernel_maps<R: FftReal, F: Fn(&[Complex<R>], usize) -> Result<Vec<Complex<R>>, LocalError>, X: Fn(usize, Passage, Load<Complex<R>, N, M>) -> (Load<Complex<R>, N, M>, Result<(), FftError>), const N: usize, const M: usize>(
    crew: MixedC2cCrew<R, F, X, N, M>,
    step: Step,
    stage: int,
    before: MixedC2cTask<R, N, M>,
    after: MixedC2cTask<R, N, M>,
)
    requires
        step.work == Work::Kernel(stage as usize),
        0 <= stage < crew.core.stages@.len(),
        crew.core.stages@.len() <= usize::MAX,
        crew.does(step, before, after, Ok(())),
    ensures
        maps::<Complex<R>, Complex<R>, MixedError, MixedComplexStation<F, N, M>>(
            crew.core.spec_station(crew.direction, step, &crew.kernels@[stage]),
            held(step.from, crew.source.data@, before.1.intermediate, before.0.data@),
            held(step.to, crew.source.data@, after.1.intermediate, after.0.data@),
        ),
{
    lemma_step_maps::<Complex<R>, MixedError, MixedComplexStation<F, N, M>, N, M>(
        crew.core.spec_station(crew.direction, step, &crew.kernels@[stage]),
        step,
        crew.core.entry_pencil(crew.direction),
        crew.source.data@,
        (before.1.intermediate, after.1.intermediate),
        (before.0.data@, after.0.data@),
        before.1.line_buffer@.len() as usize,
    );
}

/// A step that copies and succeeds keeps the values.
proof fn lemma_copy_keeps<R: FftReal, F: Fn(&[Complex<R>], usize) -> Result<Vec<Complex<R>>, LocalError>, X: Fn(usize, Passage, Load<Complex<R>, N, M>) -> (Load<Complex<R>, N, M>, Result<(), FftError>), const N: usize, const M: usize>(
    crew: MixedC2cCrew<R, F, X, N, M>,
    step: Step,
    before: MixedC2cTask<R, N, M>,
    after: MixedC2cTask<R, N, M>,
)
    requires
        step.work == Work::Copy,
        0 < crew.core.stages@.len(),
        crew.does(step, before, after, Ok(())),
    ensures
        held(step.to, crew.source.data@, after.1.intermediate, after.0.data@) == held(
            step.from,
            crew.source.data@,
            before.1.intermediate,
            before.0.data@,
        ),
{
    lemma_step_maps::<Complex<R>, MixedError, MixedComplexStation<F, N, M>, N, M>(
        crew.core.spec_station(crew.direction, step, &crew.kernels@[0]),
        step,
        crew.core.entry_pencil(crew.direction),
        crew.source.data@,
        (before.1.intermediate, after.1.intermediate),
        (before.0.data@, after.0.data@),
        before.1.line_buffer@.len() as usize,
    );
}

/// The values in front of move `index` of a forward execution.
pub open spec fn seen_there<R: FftReal, F, X, const N: usize, const M: usize>(
    crew: MixedC2cCrew<R, F, X, N, M>,
    moves: int,
    index: int,
    state: MixedC2cTask<R, N, M>,
) -> Seq<Complex<R>> {
    if index <= 0 {
        crew.source.data@
    } else if index >= moves {
        state.0.data@
    } else {
        active_values(state.1.intermediate)
    }
}

/// The values behind the move of a reverse execution that undoes move `index`.
pub open spec fn seen_home<R: FftReal, F, X, const N: usize, const M: usize>(
    crew: MixedC2cCrew<R, F, X, N, M>,
    moves: int,
    index: int,
    state: MixedC2cTask<R, N, M>,
) -> Seq<Complex<R>> {
    if index >= moves {
        crew.source.data@
    } else if index <= 0 {
        state.0.data@
    } else {
        active_values(state.1.intermediate)
    }
}

pub proof fn lemma_stage_there<R: FftReal, F: Fn(&[Complex<R>], usize) -> Result<Vec<Complex<R>>, LocalError>, X: Fn(usize, Passage, Load<Complex<R>, N, M>) -> (Load<Complex<R>, N, M>, Result<(), FftError>), const N: usize, const M: usize>(
    crew: MixedC2cCrew<R, F, X, N, M>,
    route: Itinerary,
    mode: Mode,
    eager: Seq<bool>,
    stage: int,
    before: MixedC2cTask<R, N, M>,
    after: MixedC2cTask<R, N, M>,
) -> (step: Step)
    requires
        crew.core.wf(),
        route == crew.core.itinerary(),
        route.wf(),
        mode != Mode::InPlace,
        route.stages == crew.core.stages@.len(),
        0 <= stage <= route.last(),
        all_done::<MixedC2cTask<R, N, M>, MixedError, MixedC2cCrew<R, F, X, N, M>>(
            crew,
            route.stage_there(mode, stage, eager),
            before,
            after,
        ),
    ensures
        step.work == Work::Kernel(stage as usize),
        maps::<Complex<R>, Complex<R>, MixedError, MixedComplexStation<F, N, M>>(
            crew.core.spec_station(crew.direction, step, &crew.kernels@[stage]),
            seen_there(crew, route.moves(), 2 * stage, before),
            seen_there(crew, route.moves(), 2 * stage + 1, after),
        ),
{
    let list = route.stage_there(mode, stage, eager);
    let work = if stage == 0 {
        route.entry(mode)
    } else {
        route.arrival(mode, stage, eager)
    };
    let step = work[0];
    assert(work =~= seq![step]);
    if stage == route.last() && (mode == Mode::Overlap || stage == 0) {
        let copy = copy_step(Slot::Complex, Slot::Destination, false);
        assert(list =~= seq![step, copy]);
        let between = lemma_two_done::<MixedC2cTask<R, N, M>, MixedError, MixedC2cCrew<R, F, X, N, M>>(crew, step, copy, before, after);
        lemma_kernel_maps(crew, step, stage, before, between);
        lemma_copy_keeps(crew, copy, between, after);
    } else {
        assert(list =~= seq![step]);
        lemma_one_done::<MixedC2cTask<R, N, M>, MixedError, MixedC2cCrew<R, F, X, N, M>>(crew, step, before, after);
        lemma_kernel_maps(crew, step, stage, before, after);
    }
    step
}

pub proof fn lemma_stage_home<R: FftReal, F: Fn(&[Complex<R>], usize) -> Result<Vec<Complex<R>>, LocalError>, X: Fn(usize, Passage, Load<Complex<R>, N, M>) -> (Load<Complex<R>, N, M>, Result<(), FftError>), const N: usize, const M: usize>(
    crew: MixedC2cCrew<R, F, X, N, M>,
    route: Itinerary,
    mode: Mode,
    eager: Seq<bool>,
    stage: int,
    before: MixedC2cTask<R, N, M>,
    after: MixedC2cTask<R, N, M>,
) -> (step: Step)
    requires
        crew.core.wf(),
        route == crew.core.itinerary(),
        route.wf(),
        mode != Mode::InPlace,
        route.stages == crew.core.stages@.len(),
        0 <= stage <= route.last(),
        all_done::<MixedC2cTask<R, N, M>, MixedError, MixedC2cCrew<R, F, X, N, M>>(
            crew,
            route.stage_home(mode, stage, eager),
            before,
            after,
        ),
    ensures
        step.work == Work::Kernel(stage as usize),
        maps::<Complex<R>, Complex<R>, MixedError, MixedComplexStation<F, N, M>>(
            crew.core.spec_station(crew.direction, step, &crew.kernels@[stage]),
            seen_home(crew, route.moves(), 2 * stage + 1, before),
            seen_home(crew, route.moves(), 2 * stage, after),
        ),
{
    let list = route.stage_home(mode, stage, eager);
    let agreed = route.kind.spec_agrees();
    if mode == Mode::OutOfPlace && route.last() == 0 {
        let copy = copy_step(Slot::Source, Slot::Complex, agreed);
        let step = kernel_step(0, Slot::Complex, Slot::Destination, mode, agreed, false);
        assert(list =~= seq![copy, step]);
        let between = lemma_two_done::<MixedC2cTask<R, N, M>, MixedError, MixedC2cCrew<R, F, X, N, M>>(crew, copy, step, before, after);
        lemma_copy_keeps(crew, copy, before, between);
        lemma_kernel_maps(crew, step, stage, between, after);
        return step;
    }
    let work = if stage == route.last() {
        route.reverse_entry(mode)
    } else {
        route.return_to(mode, stage, eager)
    };
    let step = work[0];
    assert(work =~= seq![step]);
    if stage == 0 && mode == Mode::Overlap {
        let copy = copy_step(Slot::Complex, Slot::Destination, false);
        assert(list =~= seq![step, copy]);
        let between = lemma_two_done::<MixedC2cTask<R, N, M>, MixedError, MixedC2cCrew<R, F, X, N, M>>(crew, step, copy, before, after);
        lemma_kernel_maps(crew, step, stage, before, between);
        lemma_copy_keeps(crew, copy, between, after);
    } else {
        assert(list =~= seq![step]);
        lemma_one_done::<MixedC2cTask<R, N, M>, MixedError, MixedC2cCrew<R, F, X, N, M>>(crew, step, before, after);
        lemma_kernel_maps(crew, step, stage, before, after);
    }
    step
}

proof fn lemma_move_undone<R: FftReal, F: Fn(&[Complex<R>], usize) -> Result<Vec<Complex<R>>, LocalError>, G: Fn(&[Complex<R>], usize) -> Result<Vec<Complex<R>>, LocalError>, X: Fn(usize, Passage, Load<Complex<R>, N, M>) -> (Load<Complex<R>, N, M>, Result<(), FftError>), Z: Fn(usize, Passage, Load<Complex<R>, N, M>) -> (Load<Complex<R>, N, M>, Result<(), FftError>), const N: usize, const M: usize>(
    there: MixedC2cCrew<R, F, X, N, M>,
    home: MixedC2cCrew<R, G, Z, N, M>,
    route: Itinerary,
    mode: Mode,
    eager: (Seq<bool>, Seq<bool>),
    index: int,
    a: MixedC2cTask<R, N, M>,
    b: MixedC2cTask<R, N, M>,
    c: MixedC2cTask<R, N, M>,
    d: MixedC2cTask<R, N, M>,
)
    requires
        there.core.wf(),
        *home.core == *there.core,
        there.direction == Direction::Forward,
        home.direction != Direction::Forward,
        route == there.core.itinerary(),
        route.wf(),
        mode != Mode::InPlace,
        route.stages == there.core.stages@.len(),
        there.kernels@.len() == there.core.stages@.len(),
        home.kernels@.len() == there.core.stages@.len(),
        kernels_undone::<Complex<R>, LocalError, F, G>(there.kernels@, home.kernels@),
        exchanges_undone::<Complex<R>, X, Z, N, M>(
            *there.exchange,
            *home.exchange,
            there.core.transitions@,
            home.direction,
        ),
        0 <= index < route.moves(),
        all_done::<MixedC2cTask<R, N, M>, MixedError, MixedC2cCrew<R, F, X, N, M>>(
            there,
            route.move_there(mode, index, eager.0),
            a,
            b,
        ),
        all_done::<MixedC2cTask<R, N, M>, MixedError, MixedC2cCrew<R, G, Z, N, M>>(
            home,
            route.move_home(mode, index, eager.1),
            c,
            d,
        ),
        seen_home(home, route.moves(), index + 1, c) == seen_there(
            there,
            route.moves(),
            index + 1,
            b,
        ),
    ensures
        seen_home(home, route.moves(), index, d) == seen_there(there, route.moves(), index, a),
{
    let stage = index / 2;
    if index % 2 == 0 {
        assert(index == 2 * stage);
        let out = lemma_stage_there(there, route, mode, eager.0, stage, a, b);
        let back = lemma_stage_home(home, route, mode, eager.1, stage, c, d);
        assert(there.core.stages@[stage].input == there.core.stages@[stage].output);
        law_mixed_station_undone::<Complex<R>, F, G, N, M>(
            there.core.spec_station(there.direction, out, &there.kernels@[stage]),
            home.core.spec_station(home.direction, back, &home.kernels@[stage]),
        );
    } else {
        let step = exchange_step(stage, Slot::Complex, mode, route.kind.spec_agrees());
        assert(index == 2 * stage + 1);
        assert(route.move_there(mode, index, eager.0) =~= seq![step]);
        assert(route.move_home(mode, index, eager.1) =~= seq![step]);
        lemma_one_done::<MixedC2cTask<R, N, M>, MixedError, MixedC2cCrew<R, F, X, N, M>>(there, step, a, b);
        lemma_one_done::<MixedC2cTask<R, N, M>, MixedError, MixedC2cCrew<R, G, Z, N, M>>(home, step, c, d);
        lemma_exchanged::<Complex<R>, MixedError, X, N, M>(
            *there.exchange,
            there.core.transitions@,
            Direction::Forward,
            stage as usize,
            (a.1.intermediate, a.1.transpose),
            (b.1.intermediate, b.1.transpose),
        );
        lemma_exchanged::<Complex<R>, MixedError, Z, N, M>(
            *home.exchange,
            home.core.transitions@,
            home.direction,
            stage as usize,
            (c.1.intermediate, c.1.transpose),
            (d.1.intermediate, d.1.transpose),
        );
    }
}

/// The kernels and exchanges of the way back undo those of the way there.
pub open spec fn mixed_c2c_undone<R: FftReal, F: Fn(&[Complex<R>], usize) -> Result<Vec<Complex<R>>, LocalError>, G: Fn(&[Complex<R>], usize) -> Result<Vec<Complex<R>>, LocalError>, X: Fn(usize, Passage, Load<Complex<R>, N, M>) -> (Load<Complex<R>, N, M>, Result<(), FftError>), Z: Fn(usize, Passage, Load<Complex<R>, N, M>) -> (Load<Complex<R>, N, M>, Result<(), FftError>), const N: usize, const M: usize>(
    there: MixedC2cCrew<R, F, X, N, M>,
    home: MixedC2cCrew<R, G, Z, N, M>,
) -> bool {
    &&& *home.core == *there.core
    &&& there.direction == Direction::Forward
    &&& home.direction != Direction::Forward
    &&& kernels_undone::<Complex<R>, LocalError, F, G>(there.kernels@, home.kernels@)
    &&& exchanges_undone::<Complex<R>, X, Z, N, M>(
        *there.exchange,
        *home.exchange,
        there.core.transitions@,
        home.direction,
    )
}

/// The steps of a forward execution and of a reverse one of what it made give back the values.
proof fn lemma_steps_undone<R: FftReal, F: Fn(&[Complex<R>], usize) -> Result<Vec<Complex<R>>, LocalError>, G: Fn(&[Complex<R>], usize) -> Result<Vec<Complex<R>>, LocalError>, X: Fn(usize, Passage, Load<Complex<R>, N, M>) -> (Load<Complex<R>, N, M>, Result<(), FftError>), Z: Fn(usize, Passage, Load<Complex<R>, N, M>) -> (Load<Complex<R>, N, M>, Result<(), FftError>), const N: usize, const M: usize>(
    there: MixedC2cCrew<R, F, X, N, M>,
    home: MixedC2cCrew<R, G, Z, N, M>,
    mode: Mode,
    eager: (Seq<bool>, Seq<bool>),
    start: MixedC2cTask<R, N, M>,
    turn: MixedC2cTask<R, N, M>,
    from: MixedC2cTask<R, N, M>,
    end: MixedC2cTask<R, N, M>,
)
    requires
        mode != Mode::InPlace,
        mixed_c2c_undone::<R, F, G, X, Z, N, M>(there, home),
        there.able(),
        home.able(),
        all_done::<MixedC2cTask<R, N, M>, MixedError, MixedC2cCrew<R, F, X, N, M>>(
            there,
            there.core.itinerary().list(Direction::Forward, mode, eager.0),
            start,
            turn,
        ),
        home.source.data@ == turn.0.data@,
        all_done::<MixedC2cTask<R, N, M>, MixedError, MixedC2cCrew<R, G, Z, N, M>>(
            home,
            there.core.itinerary().list(home.direction, mode, eager.1),
            from,
            end,
        ),
    ensures
        end.0.data@ == there.source.data@,
{
    let route = there.core.itinerary();
    assert(there.core.stages.len() == there.core.stages@.len());
    route.lemma_forward_walks::<MixedC2cTask<R, N, M>, MixedError, MixedC2cCrew<R, F, X, N, M>>(
        there,
        mode,
        eager.0,
        start,
        turn,
    );
    route.lemma_reverse_walks::<MixedC2cTask<R, N, M>, MixedError, MixedC2cCrew<R, G, Z, N, M>>(
        home,
        mode,
        eager.1,
        from,
        end,
    );
    let makes_there = route.makes_there::<MixedC2cTask<R, N, M>, MixedError, MixedC2cCrew<R, F, X, N, M>>(there, mode, eager.0);
    let makes_home = route.makes_home::<MixedC2cTask<R, N, M>, MixedError, MixedC2cCrew<R, G, Z, N, M>>(home, mode, eager.1);
    let moves = route.moves();
    let see_there = |index: int, state: MixedC2cTask<R, N, M>| seen_there(there, moves, index, state);
    let see_home = |index: int, state: MixedC2cTask<R, N, M>| seen_home(home, moves, index, state);
    assert forall|index: int, a: MixedC2cTask<R, N, M>, b: MixedC2cTask<R, N, M>, c: MixedC2cTask<R, N, M>, d: MixedC2cTask<R, N, M>|
        0 <= index < moves && #[trigger] walked(makes_there, index, a, b) && #[trigger] walked(
            makes_home,
            index,
            c,
            d,
        ) && see_home(index + 1, c) == see_there(index + 1, b) implies see_home(index, d)
        == see_there(index, a) by {
        lemma_move_undone(there, home, route, mode, eager, index, a, b, c, d);
    }
    law_way_back(
        makes_there,
        makes_home,
        see_there,
        see_home,
        moves,
        start,
        turn,
        from,
        end,
    );
}


/// A forward execution of a mixed complex plan out of place and a reverse one of what it made, with
/// kernels and exchanges that undo those of the first, give back the values.
pub proof fn law_mixed_c2c_round_trip<R: FftReal, F: Fn(&[Complex<R>], usize) -> Result<Vec<Complex<R>>, LocalError>, G: Fn(&[Complex<R>], usize) -> Result<Vec<Complex<R>>, LocalError>, X: Fn(usize, Passage, Load<Complex<R>, N, M>) -> (Load<Complex<R>, N, M>, Result<(), FftError>), Z: Fn(usize, Passage, Load<Complex<R>, N, M>) -> (Load<Complex<R>, N, M>, Result<(), FftError>), A: Fn(bool) -> bool, B: Fn(bool) -> bool, const N: usize, const M: usize>(
    there: MixedC2cCrew<R, F, X, N, M>,
    home: MixedC2cCrew<R, G, Z, N, M>,
    agree: (A, B),
    eager: (Seq<bool>, Seq<bool>),
    start: MixedC2cTask<R, N, M>,
    turn: MixedC2cTask<R, N, M>,
    from: MixedC2cTask<R, N, M>,
    end: MixedC2cTask<R, N, M>,
)
    requires
        there.able(),
        home.able(),
        mixed_c2c_undone::<R, F, G, X, Z, N, M>(there, home),
        steps_run::<MixedC2cTask<R, N, M>, MixedError, InTurn<MixedC2cCrew<R, F, X, N, M>>, A>(
            InTurn { crew: &there },
            agree.0,
            there.core.itinerary().list(Direction::Forward, Mode::OutOfPlace, eager.0),
            start,
            turn,
            Ok(()),
        ),
        home.source.data@ == turn.0.data@,
        steps_run::<MixedC2cTask<R, N, M>, MixedError, InTurn<MixedC2cCrew<R, G, Z, N, M>>, B>(
            InTurn { crew: &home },
            agree.1,
            there.core.itinerary().list(home.direction, Mode::OutOfPlace, eager.1),
            from,
            end,
            Ok(()),
        ),
    ensures
        end.0.data@ == there.source.data@,
{
    let route = there.core.itinerary();
    let out = route.forward_list(Mode::OutOfPlace, eager.0);
    let back = route.reverse_list(Mode::OutOfPlace, eager.1);
    lemma_pieces_all_done::<MixedC2cTask<R, N, M>, MixedError, MixedC2cCrew<R, F, X, N, M>, A>(
        there,
        agree.0,
        out,
        out.len() as int,
        start,
        turn,
    );
    lemma_pieces_all_done::<MixedC2cTask<R, N, M>, MixedError, MixedC2cCrew<R, G, Z, N, M>, B>(
        home,
        agree.1,
        back,
        back.len() as int,
        from,
        end,
    );
    assert(out.take(out.len() as int) =~= out);
    assert(back.take(back.len() as int) =~= back);
    lemma_steps_undone::<R, F, G, X, Z, N, M>(
        there,
        home,
        Mode::OutOfPlace,
        eager,
        start,
        turn,
        from,
        end,
    );
}

/// A forward execution of a mixed complex plan with overlap and a reverse one of what it made, with
/// kernels and exchanges that undo those of the first, give back the values, where work inside an
/// exchange comes to work behind it.
pub proof fn law_mixed_c2c_round_trip_overlapped<R: FftReal, F: Fn(&[Complex<R>], usize) -> Result<Vec<Complex<R>>, LocalError>, G: Fn(&[Complex<R>], usize) -> Result<Vec<Complex<R>>, LocalError>, X: Fn(usize, Passage, Load<Complex<R>, N, M>) -> (Load<Complex<R>, N, M>, Result<(), FftError>), Z: Fn(usize, Passage, Load<Complex<R>, N, M>) -> (Load<Complex<R>, N, M>, Result<(), FftError>), Y: Fn(usize, Direction, Option<bool>, Load<Complex<R>, N, M>) -> (Load<Complex<R>, N, M>, Result<(), OverlapError<MixedError>>), U: Fn(usize, Direction, Option<bool>, Load<Complex<R>, N, M>) -> (Load<Complex<R>, N, M>, Result<(), OverlapError<MixedError>>), A: Fn(bool) -> bool, B: Fn(bool) -> bool, const N: usize, const M: usize>(
    there: MixedC2cOverlapCrew<R, F, X, Y, N, M>,
    home: MixedC2cOverlapCrew<R, G, Z, U, N, M>,
    agree: (A, B),
    eager: (Seq<bool>, Seq<bool>),
    start: MixedC2cTask<R, N, M>,
    turn: MixedC2cTask<R, N, M>,
    from: MixedC2cTask<R, N, M>,
    end: MixedC2cTask<R, N, M>,
)
    requires
        mixed_c2c_undone::<R, F, G, X, Z, N, M>(there.crew, home.crew),
        ran_overlapped::<MixedC2cTask<R, N, M>, MixedError, MixedC2cOverlapCrew<R, F, X, Y, N, M>, A>(
            there,
            agree.0,
            there.crew.core.itinerary().list(Direction::Forward, Mode::Overlap, eager.0),
            start,
            turn,
        ),
        home.crew.source.data@ == turn.0.data@,
        ran_overlapped::<MixedC2cTask<R, N, M>, MixedError, MixedC2cOverlapCrew<R, G, Z, U, N, M>, B>(
            home,
            agree.1,
            there.crew.core.itinerary().list(home.crew.direction, Mode::Overlap, eager.1),
            from,
            end,
        ),
    ensures
        end.0.data@ == there.crew.source.data@,
{
    let route = there.crew.core.itinerary();
    let out = route.forward_list(Mode::Overlap, eager.0);
    let back = route.reverse_list(Mode::Overlap, eager.1);
    law_overlap_does_steps::<MixedC2cTask<R, N, M>, MixedError, MixedC2cOverlapCrew<R, F, X, Y, N, M>, A>(
        there,
        agree.0,
        out,
        out.len() as int,
        start,
        turn,
    );
    law_overlap_does_steps::<MixedC2cTask<R, N, M>, MixedError, MixedC2cOverlapCrew<R, G, Z, U, N, M>, B>(
        home,
        agree.1,
        back,
        back.len() as int,
        from,
        end,
    );
    assert(out.take(out.len() as int) =~= out);
    assert(back.take(back.len() as int) =~= back);
    lemma_same_steps::<MixedC2cTask<R, N, M>, MixedError, MixedC2cOverlapCrew<R, F, X, Y, N, M>, MixedC2cCrew<R, F, X, N, M>>(
        there,
        there.crew,
        out,
        start,
        turn,
    );
    lemma_same_steps::<MixedC2cTask<R, N, M>, MixedError, MixedC2cOverlapCrew<R, G, Z, U, N, M>, MixedC2cCrew<R, G, Z, N, M>>(
        home,
        home.crew,
        back,
        from,
        end,
    );
    lemma_steps_undone::<R, F, G, X, Z, N, M>(
        there.crew,
        home.crew,
        Mode::Overlap,
        eager,
        start,
        turn,
        from,
        end,
    );
}

proof fn lemma_kept_move_undone<R: FftReal, F: Fn(&[Complex<R>], usize) -> Result<Vec<Complex<R>>, LocalError>, G: Fn(&[Complex<R>], usize) -> Result<Vec<Complex<R>>, LocalError>, X: Fn(usize, Passage, Load<Complex<R>, N, M>) -> (Load<Complex<R>, N, M>, Result<(), FftError>), Z: Fn(usize, Passage, Load<Complex<R>, N, M>) -> (Load<Complex<R>, N, M>, Result<(), FftError>), const N: usize, const M: usize>(
    there: MixedC2cInPlaceCrew<F, X, N, M>,
    home: MixedC2cInPlaceCrew<G, Z, N, M>,
    route: Itinerary,
    eager: (Seq<bool>, Seq<bool>),
    index: int,
    a: MixedC2cInPlaceTask<R, N, M>,
    b: MixedC2cInPlaceTask<R, N, M>,
    c: MixedC2cInPlaceTask<R, N, M>,
    d: MixedC2cInPlaceTask<R, N, M>,
)
    requires
        there.core.wf(),
        *home.core == *there.core,
        there.direction == Direction::Forward,
        home.direction != Direction::Forward,
        route == there.core.itinerary(),
        route.wf(),
        route.stages == there.core.stages@.len(),
        there.kernels@.len() == there.core.stages@.len(),
        home.kernels@.len() == there.core.stages@.len(),
        kernels_undone::<Complex<R>, LocalError, F, G>(there.kernels@, home.kernels@),
        exchanges_undone::<Complex<R>, X, Z, N, M>(
            *there.exchange,
            *home.exchange,
            there.core.transitions@,
            home.direction,
        ),
        0 <= index < route.moves(),
        all_done::<MixedC2cInPlaceTask<R, N, M>, MixedError, MixedC2cInPlaceCrew<F, X, N, M>>(
            there,
            route.move_there(Mode::InPlace, index, eager.0),
            a,
            b,
        ),
        all_done::<MixedC2cInPlaceTask<R, N, M>, MixedError, MixedC2cInPlaceCrew<G, Z, N, M>>(
            home,
            route.move_home(Mode::InPlace, index, eager.1),
            c,
            d,
        ),
        active_values(c.0.array) == active_values(b.0.array),
    ensures
        active_values(d.0.array) == active_values(a.0.array),
{
    let stage = index / 2;
    let agreed = route.kind.spec_agrees();
    if index % 2 == 0 {
        assert(index == 2 * stage);
        let step = kernel_step(stage, Slot::Complex, Slot::Complex, Mode::InPlace, agreed, false);
        assert(route.move_there(Mode::InPlace, index, eager.0) =~= seq![step]);
        assert(route.move_home(Mode::InPlace, index, eager.1) =~= seq![step]);
        lemma_one_done::<MixedC2cInPlaceTask<R, N, M>, MixedError, MixedC2cInPlaceCrew<F, X, N, M>>(there, step, a, b);
        lemma_one_done::<MixedC2cInPlaceTask<R, N, M>, MixedError, MixedC2cInPlaceCrew<G, Z, N, M>>(home, step, c, d);
        assert(there.core.stages@[stage].input == there.core.stages@[stage].output);
        let out = there.core.spec_station(there.direction, step, &there.kernels@[stage]);
        let back = home.core.spec_station(home.direction, step, &home.kernels@[stage]);
        lemma_applied_maps::<Complex<R>, MixedError, MixedComplexStation<F, N, M>, N, M>(
            out,
            a.0.array,
            b.0.array,
            a.1.line_buffer@.len() as usize,
        );
        lemma_applied_maps::<Complex<R>, MixedError, MixedComplexStation<G, N, M>, N, M>(
            back,
            c.0.array,
            d.0.array,
            c.1.line_buffer@.len() as usize,
        );
        law_mixed_station_undone::<Complex<R>, F, G, N, M>(out, back);
    } else {
        let step = exchange_step(stage, Slot::Complex, Mode::InPlace, agreed);
        assert(index == 2 * stage + 1);
        assert(route.move_there(Mode::InPlace, index, eager.0) =~= seq![step]);
        assert(route.move_home(Mode::InPlace, index, eager.1) =~= seq![step]);
        lemma_one_done::<MixedC2cInPlaceTask<R, N, M>, MixedError, MixedC2cInPlaceCrew<F, X, N, M>>(there, step, a, b);
        lemma_one_done::<MixedC2cInPlaceTask<R, N, M>, MixedError, MixedC2cInPlaceCrew<G, Z, N, M>>(home, step, c, d);
        lemma_exchanged::<Complex<R>, MixedError, X, N, M>(
            *there.exchange,
            there.core.transitions@,
            Direction::Forward,
            stage as usize,
            (a.0.array, a.1.transpose),
            (b.0.array, b.1.transpose),
        );
        lemma_exchanged::<Complex<R>, MixedError, Z, N, M>(
            *home.exchange,
            home.core.transitions@,
            home.direction,
            stage as usize,
            (c.0.array, c.1.transpose),
            (d.0.array, d.1.transpose),
        );
    }
}

/// A forward execution of a mixed complex plan in place and a reverse one of what it made, with
/// kernels and exchanges that undo those of the first, give back the values.
pub proof fn law_mixed_c2c_round_trip_in_place<R: FftReal, F: Fn(&[Complex<R>], usize) -> Result<Vec<Complex<R>>, LocalError>, G: Fn(&[Complex<R>], usize) -> Result<Vec<Complex<R>>, LocalError>, X: Fn(usize, Passage, Load<Complex<R>, N, M>) -> (Load<Complex<R>, N, M>, Result<(), FftError>), Z: Fn(usize, Passage, Load<Complex<R>, N, M>) -> (Load<Complex<R>, N, M>, Result<(), FftError>), A: Fn(bool) -> bool, B: Fn(bool) -> bool, const N: usize, const M: usize>(
    there: MixedC2cInPlaceCrew<F, X, N, M>,
    home: MixedC2cInPlaceCrew<G, Z, N, M>,
    agree: (A, B),
    eager: (Seq<bool>, Seq<bool>),
    start: MixedC2cInPlaceTask<R, N, M>,
    turn: MixedC2cInPlaceTask<R, N, M>,
    from: MixedC2cInPlaceTask<R, N, M>,
    end: MixedC2cInPlaceTask<R, N, M>,
)
    requires
        Crew::<MixedC2cInPlaceTask<R, N, M>, MixedError>::able(&there),
        Crew::<MixedC2cInPlaceTask<R, N, M>, MixedError>::able(&home),
        *home.core == *there.core,
        there.direction == Direction::Forward,
        home.direction != Direction::Forward,
        kernels_undone::<Complex<R>, LocalError, F, G>(there.kernels@, home.kernels@),
        exchanges_undone::<Complex<R>, X, Z, N, M>(
            *there.exchange,
            *home.exchange,
            there.core.transitions@,
            home.direction,
        ),
        steps_run::<MixedC2cInPlaceTask<R, N, M>, MixedError, InTurn<MixedC2cInPlaceCrew<F, X, N, M>>, A>(
            InTurn { crew: &there },
            agree.0,
            there.core.itinerary().list(Direction::Forward, Mode::InPlace, eager.0),
            start,
            turn,
            Ok(()),
        ),
        active_values(from.0.array) == active_values(turn.0.array),
        steps_run::<MixedC2cInPlaceTask<R, N, M>, MixedError, InTurn<MixedC2cInPlaceCrew<G, Z, N, M>>, B>(
            InTurn { crew: &home },
            agree.1,
            there.core.itinerary().list(home.direction, Mode::InPlace, eager.1),
            from,
            end,
            Ok(()),
        ),
    ensures
        active_values(end.0.array) == active_values(start.0.array),
{
    let route = there.core.itinerary();
    assert(there.core.stages.len() == there.core.stages@.len());
    let out = route.forward_list(Mode::InPlace, eager.0);
    let back = route.reverse_list(Mode::InPlace, eager.1);
    lemma_pieces_all_done::<MixedC2cInPlaceTask<R, N, M>, MixedError, MixedC2cInPlaceCrew<F, X, N, M>, A>(
        there,
        agree.0,
        out,
        out.len() as int,
        start,
        turn,
    );
    lemma_pieces_all_done::<MixedC2cInPlaceTask<R, N, M>, MixedError, MixedC2cInPlaceCrew<G, Z, N, M>, B>(
        home,
        agree.1,
        back,
        back.len() as int,
        from,
        end,
    );
    assert(out.take(out.len() as int) =~= out);
    assert(back.take(back.len() as int) =~= back);
    route.lemma_forward_walks::<MixedC2cInPlaceTask<R, N, M>, MixedError, MixedC2cInPlaceCrew<F, X, N, M>>(
        there,
        Mode::InPlace,
        eager.0,
        start,
        turn,
    );
    route.lemma_reverse_walks::<MixedC2cInPlaceTask<R, N, M>, MixedError, MixedC2cInPlaceCrew<G, Z, N, M>>(
        home,
        Mode::InPlace,
        eager.1,
        from,
        end,
    );
    let makes_there = route.makes_there::<MixedC2cInPlaceTask<R, N, M>, MixedError, MixedC2cInPlaceCrew<F, X, N, M>>(there, Mode::InPlace, eager.0);
    let makes_home = route.makes_home::<MixedC2cInPlaceTask<R, N, M>, MixedError, MixedC2cInPlaceCrew<G, Z, N, M>>(home, Mode::InPlace, eager.1);
    let moves = route.moves();
    let seen = |index: int, state: MixedC2cInPlaceTask<R, N, M>| active_values(state.0.array);
    assert forall|index: int, a: MixedC2cInPlaceTask<R, N, M>, b: MixedC2cInPlaceTask<R, N, M>, c: MixedC2cInPlaceTask<R, N, M>, d: MixedC2cInPlaceTask<R, N, M>|
        0 <= index < moves && #[trigger] walked(makes_there, index, a, b) && #[trigger] walked(
            makes_home,
            index,
            c,
            d,
        ) && seen(index + 1, c) == seen(index + 1, b) implies seen(index, d) == seen(index, a) by {
        lemma_kept_move_undone(there, home, route, eager, index, a, b, c, d);
    }
    law_way_back(makes_there, makes_home, seen, seen, moves, start, turn, from, end);
}

} // verus!
