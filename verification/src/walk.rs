//! A way there and the way back: what undoes each move undoes them all.

use vstd::prelude::*;

use crate::crew::all_done;
use crate::crew::enclosed_done;
use crate::crew::enclosed_outcome;
use crate::crew::enclosing_exchange;
use crate::crew::in_turn;
use crate::crew::open_outcome;
use crate::crew::Crew;
use crate::crew::InTurn;
use crate::crew::OverlapCrew;
use crate::crew::Overlapped;
use crate::crew::Pieces;
use crate::error::Failure;
use crate::error::FftOverlapError;
use crate::error::OverlapError;
use crate::run::agreed_outcome;
use crate::run::is_piece;
use crate::run::piece_done;
use crate::run::pieces_done;
use crate::run::steps_run;
use crate::schedule::Step;
use crate::schedule::Work;

verus! {

/// Steps after steps that were all done were all done.
pub proof fn lemma_all_done_concat<D, E, C: Crew<D, E>>(
    crew: C,
    first: Seq<Step>,
    second: Seq<Step>,
    before: D,
    between: D,
    after: D,
)
    requires
        all_done::<D, E, C>(crew, first, before, between),
        all_done::<D, E, C>(crew, second, between, after),
    ensures
        all_done::<D, E, C>(crew, first + second, before, after),
    decreases second.len(),
{
    if second.len() == 0 {
        assert(first + second =~= first);
    } else {
        let middle = choose|middle: D|
            all_done::<D, E, C>(crew, second.drop_last(), between, middle) && #[trigger] crew.does(
                second.last(),
                middle,
                after,
                Ok(()),
            );
        lemma_all_done_concat::<D, E, C>(crew, first, second.drop_last(), before, between, middle);
        assert((first + second).drop_last() =~= first + second.drop_last());
        assert((first + second).last() == second.last());
    }
}

/// Steps that were all done have a state between any two of them.
pub proof fn lemma_all_done_split<D, E, C: Crew<D, E>>(
    crew: C,
    first: Seq<Step>,
    second: Seq<Step>,
    before: D,
    after: D,
) -> (between: D)
    requires
        all_done::<D, E, C>(crew, first + second, before, after),
    ensures
        all_done::<D, E, C>(crew, first, before, between),
        all_done::<D, E, C>(crew, second, between, after),
    decreases second.len(),
{
    if second.len() == 0 {
        assert(first + second =~= first);
        after
    } else {
        let all = first + second;
        let middle = choose|middle: D|
            all_done::<D, E, C>(crew, all.drop_last(), before, middle) && #[trigger] crew.does(
                all.last(),
                middle,
                after,
                Ok(()),
            );
        assert(all.drop_last() =~= first + second.drop_last());
        let between = lemma_all_done_split::<D, E, C>(
            crew,
            first,
            second.drop_last(),
            before,
            middle,
        );
        assert(crew.does(second.last(), middle, after, Ok(())));
        between
    }
}

/// A run of pieces that all succeeded did all its steps.
pub proof fn lemma_pieces_all_done<D, E: Failure, C: Crew<D, E>, A: Fn(bool) -> bool>(
    crew: C,
    agree: A,
    steps: Seq<Step>,
    end: int,
    before: D,
    after: D,
)
    requires
        pieces_done(InTurn { crew: &crew }, agree, steps, end, before, after),
        0 <= end <= steps.len(),
    ensures
        all_done::<D, E, C>(crew, steps.take(end), before, after),
    decreases end,
{
    let pieces = InTurn { crew: &crew };
    if end <= 0 {
        assert(steps.take(end) =~= Seq::<Step>::empty());
    } else {
        let (start, between) = choose|start: int, between: D|
            {
                &&& 0 <= start < end
                &&& is_piece(steps, start, end)
                &&& pieces_done(pieces, agree, steps, start, before, between)
                &&& #[trigger] piece_done(
                    pieces,
                    agree,
                    steps.subrange(start, end),
                    between,
                    after,
                    Ok::<(), E>(()),
                )
            };
        lemma_pieces_all_done::<D, E, C, A>(crew, agree, steps, start, before, between);
        let piece = steps.subrange(start, end);
        let local = choose|local: Result<(), E>|
            {
                &&& #[trigger] in_turn::<D, E, C>(crew, piece, between, after, local)
                &&& if piece.last().agreed {
                    exists|all_valid: bool|
                        {
                            &&& #[trigger] agree.ensures((local is Ok,), all_valid)
                            &&& Ok::<(), E>(()) == agreed_outcome(local, all_valid)
                        }
                } else {
                    Ok::<(), E>(()) == local
                }
            };
        assert(local is Ok);
        lemma_all_done_concat::<D, E, C>(crew, steps.take(start), piece, before, between, after);
        assert(steps.take(start) + piece =~= steps.take(end));
    }
}

/// `step` is exchange `index`.
pub open spec fn is_exchange(step: Step, index: usize) -> bool {
    step.work == Work::Exchange(index)
}

/// Bringing the values of an exchange in, work on them, and waiting for the own sends come to the
/// exchange and the same work behind it.
pub open spec fn encloses<D, E, C: OverlapCrew<D, E>>(crew: C) -> bool {
    forall|
        step: Step,
        index: usize,
        rest: Seq<Step>,
        before: D,
        landed: D,
        worked: D,
        after: D,
    |
        #![trigger is_exchange(step, index), crew.lands(index, before, landed, Ok(())), all_done::<D, E, C>(crew, rest, landed, worked), crew.settles(index, true, worked, after, Ok(()))]
        is_exchange(step, index) && crew.spec_eager(index) && crew.lands(
            index,
            before,
            landed,
            Ok(()),
        ) && all_done::<D, E, C>(crew, rest, landed, worked) && crew.settles(
            index,
            true,
            worked,
            after,
            Ok(()),
        ) ==> all_done::<D, E, C>(crew, seq![step] + rest, before, after)
}

proof fn lemma_overlapped_piece<D, E, C: OverlapCrew<D, E>>(
    crew: C,
    piece: Seq<Step>,
    before: D,
    after: D,
)
    requires
        encloses::<D, E, C>(crew),
        Pieces::<D, FftOverlapError<E>>::done(
            &(Overlapped { crew: &crew }),
            piece,
            before,
            after,
            Ok(()),
        ),
    ensures
        all_done::<D, E, C>(crew, piece, before, after),
{
    match enclosing_exchange::<D, E, C>(crew, piece) {
        None => {
            let local = choose|local: Result<(), E>| #[trigger]
                in_turn::<D, E, C>(crew, piece, before, after, local) && Ok::<
                    (),
                    FftOverlapError<E>,
                >(()) == open_outcome(local);
            assert(local is Ok);
        },
        Some(index) => {
            let (landed, landing) = choose|landed: D, landing: Result<(), OverlapError<E>>|
                #[trigger]
                crew.lands(index, before, landed, landing) && match landing {
                    Err(error) => after == landed && Ok::<(), FftOverlapError<E>>(()) == Err::<
                        (),
                        FftOverlapError<E>,
                    >(FftOverlapError::Overlap(error)),
                    Ok(_) => enclosed_done::<D, E, C>(
                        crew,
                        index,
                        piece.skip(1),
                        landed,
                        after,
                        Ok(()),
                    ),
                };
            match landing {
                Ok(done) => {
                    assert(landing == Ok::<(), OverlapError<E>>(()));
                },
                Err(_) => {},
            }
            let rest = piece.skip(1);
            let (worked, local, answer) = choose|
                worked: D,
                local: Result<(), E>,
                answer: Result<(), OverlapError<E>>,
            |
                {
                    &&& #[trigger] in_turn::<D, E, C>(crew, rest, landed, worked, local)
                    &&& #[trigger] crew.settles(index, local is Ok, worked, after, answer)
                    &&& Ok::<(), FftOverlapError<E>>(()) == enclosed_outcome(local, answer)
                };
            assert(local is Ok);
            match answer {
                Ok(done) => {
                    assert(answer == Ok::<(), OverlapError<E>>(()));
                },
                Err(_) => {},
            }
            assert(is_exchange(piece[0], index));
            assert(all_done::<D, E, C>(crew, rest, landed, worked));
            assert(crew.settles(index, true, worked, after, Ok(())));
            assert(seq![piece[0]] + rest =~= piece);
        },
    }
}

/// An execution with overlap that succeeds up to step `end` did all its steps, where work inside an
/// exchange comes to work behind it.
pub proof fn law_overlap_does_steps<D, E: Failure, C: OverlapCrew<D, E>, A: Fn(bool) -> bool>(
    crew: C,
    agree: A,
    steps: Seq<Step>,
    end: int,
    before: D,
    after: D,
)
    requires
        encloses::<D, E, C>(crew),
        pieces_done::<D, FftOverlapError<E>, Overlapped<C>, A>(
            Overlapped { crew: &crew },
            agree,
            steps,
            end,
            before,
            after,
        ),
        0 <= end <= steps.len(),
    ensures
        all_done::<D, E, C>(crew, steps.take(end), before, after),
    decreases end,
{
    let pieces = Overlapped { crew: &crew };
    if end <= 0 {
        assert(steps.take(end) =~= Seq::<Step>::empty());
    } else {
        let (start, between) = choose|start: int, between: D|
            {
                &&& 0 <= start < end
                &&& is_piece(steps, start, end)
                &&& pieces_done::<D, FftOverlapError<E>, Overlapped<C>, A>(
                    pieces,
                    agree,
                    steps,
                    start,
                    before,
                    between,
                )
                &&& #[trigger] piece_done::<D, FftOverlapError<E>, Overlapped<C>, A>(
                    pieces,
                    agree,
                    steps.subrange(start, end),
                    between,
                    after,
                    Ok(()),
                )
            };
        law_overlap_does_steps::<D, E, C, A>(crew, agree, steps, start, before, between);
        let piece = steps.subrange(start, end);
        let local = choose|local: Result<(), FftOverlapError<E>>|
            {
                &&& #[trigger] Pieces::<D, FftOverlapError<E>>::done(
                    &pieces,
                    piece,
                    between,
                    after,
                    local,
                )
                &&& if piece.last().agreed {
                    exists|all_valid: bool|
                        {
                            &&& #[trigger] agree.ensures((local is Ok,), all_valid)
                            &&& Ok::<(), FftOverlapError<E>>(()) == agreed_outcome(
                                local,
                                all_valid,
                            )
                        }
                } else {
                    Ok::<(), FftOverlapError<E>>(()) == local
                }
            };
        assert(local == Ok::<(), FftOverlapError<E>>(()));
        lemma_overlapped_piece::<D, E, C>(crew, piece, between, after);
        lemma_all_done_concat::<D, E, C>(crew, steps.take(start), piece, before, between, after);
        assert(steps.take(start) + piece =~= steps.take(end));
    }
}

/// Steps were run with overlap and succeeded, by a crew that is able to work and for whom work inside
/// an exchange comes to work behind it.
pub open spec fn ran_overlapped<D, E: Failure, C: OverlapCrew<D, E>, A: Fn(bool) -> bool>(
    crew: C,
    agree: A,
    steps: Seq<Step>,
    before: D,
    after: D,
) -> bool {
    &&& crew.able()
    &&& encloses::<D, E, C>(crew)
    &&& steps_run::<D, FftOverlapError<E>, Overlapped<C>, A>(
        Overlapped { crew: &crew },
        agree,
        steps,
        before,
        after,
        Ok(()),
    )
}

/// The first `moves` moves were made, one after the other.
pub open spec fn walks<D>(makes: spec_fn(int, D, D) -> bool, moves: int, before: D, after: D) -> bool
    decreases moves,
{
    if moves <= 0 {
        after == before
    } else {
        exists|between: D| #[trigger]
            walked(makes, moves - 1, between, after) && walks(makes, moves - 1, before, between)
    }
}

/// Move `index` was made.
pub open spec fn walked<D>(makes: spec_fn(int, D, D) -> bool, index: int, before: D, after: D) -> bool {
    makes(index, before, after)
}

/// The first `moves` moves were made, from the last of them to the first.
pub open spec fn walks_back<D>(
    makes: spec_fn(int, D, D) -> bool,
    moves: int,
    before: D,
    after: D,
) -> bool
    decreases moves,
{
    if moves <= 0 {
        after == before
    } else {
        exists|between: D| #[trigger]
            walked(makes, moves - 1, before, between) && walks_back(
                makes,
                moves - 1,
                between,
                after,
            )
    }
}

/// One more move.
pub proof fn lemma_walk_on<D>(
    makes: spec_fn(int, D, D) -> bool,
    moves: int,
    before: D,
    between: D,
    after: D,
)
    requires
        0 <= moves,
        walks(makes, moves, before, between),
        walked(makes, moves, between, after),
    ensures
        walks(makes, moves + 1, before, after),
{
    let more = moves + 1;
    assert(walked(makes, more - 1, between, after) && walks(makes, more - 1, before, between));
}

/// One more move on the way back.
pub proof fn lemma_walk_back_on<D>(
    makes: spec_fn(int, D, D) -> bool,
    moves: int,
    before: D,
    between: D,
    after: D,
)
    requires
        0 <= moves,
        walked(makes, moves, before, between),
        walks_back(makes, moves, between, after),
    ensures
        walks_back(makes, moves + 1, before, after),
{
    let more = moves + 1;
    assert(walked(makes, more - 1, before, between) && walks_back(
        makes,
        more - 1,
        between,
        after,
    ));
}

/// Move `index` was made, and `holds` held in front of it and behind it.
pub open spec fn kept_there<D>(
    makes: spec_fn(int, D, D) -> bool,
    holds: spec_fn(int, D) -> bool,
) -> spec_fn(int, D, D) -> bool {
    |index: int, before: D, after: D|
        walked(makes, index, before, after) && holds(index, before) && holds(index + 1, after)
}

/// The move that undoes move `index` was made, and `holds` held in front of it and behind it.
pub open spec fn kept_home<D>(
    makes: spec_fn(int, D, D) -> bool,
    holds: spec_fn(int, D) -> bool,
) -> spec_fn(int, D, D) -> bool {
    |index: int, before: D, after: D|
        walked(makes, index, before, after) && holds(index + 1, before) && holds(index, after)
}

/// What each move keeps, the whole way keeps.
pub proof fn lemma_kept_there<D>(
    makes: spec_fn(int, D, D) -> bool,
    holds: spec_fn(int, D) -> bool,
    moves: int,
    before: D,
    after: D,
)
    requires
        0 <= moves,
        walks(makes, moves, before, after),
        holds(0, before),
        forall|index: int, a: D, b: D|
            0 <= index < moves && #[trigger] walked(makes, index, a, b) && holds(index, a) ==> holds(
                index + 1,
                b,
            ),
    ensures
        holds(moves, after),
        walks(kept_there(makes, holds), moves, before, after),
    decreases moves,
{
    if moves > 0 {
        let between = choose|between: D| #[trigger]
            walked(makes, moves - 1, between, after) && walks(makes, moves - 1, before, between);
        lemma_kept_there(makes, holds, moves - 1, before, between);
        assert(holds(moves - 1 + 1, after));
        assert(walked(kept_there(makes, holds), moves - 1, between, after));
        lemma_walk_on(kept_there(makes, holds), moves - 1, before, between, after);
    }
}

/// What each move of the way back keeps, the whole way back keeps.
pub proof fn lemma_kept_home<D>(
    makes: spec_fn(int, D, D) -> bool,
    holds: spec_fn(int, D) -> bool,
    moves: int,
    before: D,
    after: D,
)
    requires
        0 <= moves,
        walks_back(makes, moves, before, after),
        holds(moves, before),
        forall|index: int, a: D, b: D|
            0 <= index < moves && #[trigger] walked(makes, index, a, b) && holds(index + 1, a)
                ==> holds(index, b),
    ensures
        holds(0, after),
        walks_back(kept_home(makes, holds), moves, before, after),
    decreases moves,
{
    if moves > 0 {
        let between = choose|between: D| #[trigger]
            walked(makes, moves - 1, before, between) && walks_back(makes, moves - 1, between, after);
        assert(holds(moves - 1 + 1, before));
        assert(holds(moves - 1, between));
        lemma_kept_home(makes, holds, moves - 1, between, after);
        assert(walked(kept_home(makes, holds), moves - 1, before, between));
        lemma_walk_back_on(kept_home(makes, holds), moves - 1, before, between, after);
    }
}

/// What each move of the way back restores of a relation to the way there, the whole way back
/// restores.
pub proof fn law_way_back_by<D, B>(
    there: spec_fn(int, D, D) -> bool,
    home: spec_fn(int, B, B) -> bool,
    related: spec_fn(int, B, D) -> bool,
    moves: int,
    start: D,
    turn: D,
    from: B,
    end: B,
)
    requires
        walks(there, moves, start, turn),
        walks_back(home, moves, from, end),
        0 <= moves,
        related(moves, from, turn),
        forall|index: int, a: D, b: D, c: B, d: B|
            0 <= index < moves && #[trigger] walked(there, index, a, b) && #[trigger] walked(
                home,
                index,
                c,
                d,
            ) && related(index + 1, c, b) ==> related(index, d, a),
    ensures
        related(0, end, start),
    decreases moves,
{
    if moves > 0 {
        let before = choose|between: D| #[trigger]
            walked(there, moves - 1, between, turn) && walks(there, moves - 1, start, between);
        let after = choose|between: B| #[trigger]
            walked(home, moves - 1, from, between) && walks_back(home, moves - 1, between, end);
        assert(related(moves - 1 + 1, from, turn));
        assert(related(moves - 1, after, before));
        law_way_back_by(there, home, related, moves - 1, start, before, after, end);
    }
}

/// What each move of the way back restores, the whole way back restores. `seen` is what is seen of
/// a state in front of a move.
pub proof fn law_way_back<D, B, T>(
    there: spec_fn(int, D, D) -> bool,
    home: spec_fn(int, B, B) -> bool,
    seen_there: spec_fn(int, D) -> T,
    seen_home: spec_fn(int, B) -> T,
    moves: int,
    start: D,
    turn: D,
    from: B,
    end: B,
)
    requires
        walks(there, moves, start, turn),
        walks_back(home, moves, from, end),
        0 <= moves,
        seen_home(moves, from) == seen_there(moves, turn),
        forall|index: int, a: D, b: D, c: B, d: B|
            0 <= index < moves && #[trigger] walked(there, index, a, b) && #[trigger] walked(
                home,
                index,
                c,
                d,
            ) && seen_home(index + 1, c) == seen_there(index + 1, b) ==> seen_home(index, d)
                == seen_there(index, a),
    ensures
        seen_home(0, end) == seen_there(0, start),
{
    let related = |index: int, c: B, b: D| seen_home(index, c) == seen_there(index, b);
    law_way_back_by(there, home, related, moves, start, turn, from, end);
    assert(related(0, end, start));
}

/// Two ways that make equal of equal with each move end with equal values where they start with
/// equal ones. `seen` is what is seen of a state in front of a move.
pub proof fn law_same_way<D, B, T>(
    left: spec_fn(int, D, D) -> bool,
    right: spec_fn(int, B, B) -> bool,
    seen_left: spec_fn(int, D) -> T,
    seen_right: spec_fn(int, B) -> T,
    moves: int,
    start: D,
    end: D,
    from: B,
    to: B,
)
    requires
        walks(left, moves, start, end),
        walks(right, moves, from, to),
        0 <= moves,
        seen_left(0, start) == seen_right(0, from),
        forall|index: int, a: D, b: D, c: B, d: B|
            0 <= index < moves && #[trigger] walked(left, index, a, b) && #[trigger] walked(
                right,
                index,
                c,
                d,
            ) && seen_left(index, a) == seen_right(index, c) ==> seen_left(index + 1, b)
                == seen_right(index + 1, d),
    ensures
        seen_left(moves, end) == seen_right(moves, to),
    decreases moves,
{
    if moves > 0 {
        let before = choose|between: D| #[trigger]
            walked(left, moves - 1, between, end) && walks(left, moves - 1, start, between);
        let after = choose|between: B| #[trigger]
            walked(right, moves - 1, between, to) && walks(right, moves - 1, from, between);
        law_same_way(
            left,
            right,
            seen_left,
            seen_right,
            moves - 1,
            start,
            before,
            from,
            after,
        );
        assert(seen_left(moves - 1 + 1, end) == seen_right(moves - 1 + 1, to));
    }
}

/// Two ways back that keep two states related with each move end with related ones where they start
/// with related ones. `related` holds of states in front of the move with an index, counted from
/// the end.
pub proof fn law_same_way_back<D, B>(
    left: spec_fn(int, D, D) -> bool,
    right: spec_fn(int, B, B) -> bool,
    related: spec_fn(int, D, B) -> bool,
    moves: int,
    start: D,
    end: D,
    from: B,
    to: B,
)
    requires
        walks_back(left, moves, start, end),
        walks_back(right, moves, from, to),
        0 <= moves,
        related(moves, start, from),
        forall|index: int, a: D, b: D, c: B, d: B|
            0 <= index < moves && #[trigger] walked(left, index, a, b) && #[trigger] walked(
                right,
                index,
                c,
                d,
            ) && related(index + 1, a, c) ==> related(index, b, d),
    ensures
        related(0, end, to),
    decreases moves,
{
    if moves > 0 {
        let before = choose|between: D| #[trigger]
            walked(left, moves - 1, start, between) && walks_back(left, moves - 1, between, end);
        let after = choose|between: B| #[trigger]
            walked(right, moves - 1, from, between) && walks_back(right, moves - 1, between, to);
        assert(related(moves - 1 + 1, start, from));
        assert(related(moves - 1, before, after));
        law_same_way_back(left, right, related, moves - 1, before, end, after, to);
    }
}

} // verus!
