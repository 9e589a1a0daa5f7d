//! The steps of an execution, gathered into the moves of its journey.

use vstd::prelude::*;

use crate::crew::all_done;
use crate::crew::Crew;
use crate::schedule::arrive_step;
use crate::schedule::copy_step;
use crate::schedule::endpoint_step;
use crate::schedule::exchange_step;
use crate::schedule::Itinerary;
use crate::schedule::Mode;
use crate::schedule::RouteKind;
use crate::schedule::Slot;
use crate::schedule::Step;
use crate::schedule::Work;
use crate::walk::lemma_all_done_split;
use crate::walk::lemma_walk_back_on;
use crate::walk::lemma_walk_on;
use crate::walk::walked;
use crate::walk::walks;
use crate::walk::walks_back;

verus! {

impl Itinerary {
    /// Moves of a journey: one at each stage and one between each two.
    pub open spec fn moves(&self) -> int {
        2 * self.last() + 1
    }

    /// The array that exchange `index` works on.
    pub open spec fn carries_in(&self, index: int) -> Slot {
        if index < self.boundary {
            Slot::Real
        } else {
            Slot::Complex
        }
    }

    /// What follows the last kernel of a forward execution.
    pub open spec fn forward_end(&self, mode: Mode) -> Seq<Step> {
        if mode == Mode::Overlap || (mode == Mode::OutOfPlace && self.boundary == self.last()) {
            seq![copy_step(Slot::Complex, Slot::Destination, false)]
        } else if mode == Mode::InPlace && self.kind == RouteKind::HalfComplex {
            seq![arrive_step(Slot::Complex)]
        } else {
            seq![]
        }
    }

    /// What follows the last kernel of a reverse execution.
    pub open spec fn reverse_end(&self, mode: Mode) -> Seq<Step> {
        if mode == Mode::Overlap && !self.kind.spec_has_boundary() {
            seq![copy_step(Slot::Complex, Slot::Destination, false)]
        } else if mode == Mode::Overlap && self.boundary > 0 {
            seq![copy_step(Slot::Real, Slot::Destination, false)]
        } else if mode == Mode::InPlace && self.kind == RouteKind::HalfComplex {
            seq![arrive_step(Slot::Real)]
        } else {
            seq![]
        }
    }

    /// The steps of a forward execution at stage `stage`.
    pub open spec fn stage_there(&self, mode: Mode, stage: int, eager: Seq<bool>) -> Seq<Step> {
        let work = if stage <= 0 {
            self.entry(mode)
        } else {
            self.arrival(mode, stage, eager)
        };
        if stage == self.last() {
            work + self.forward_end(mode)
        } else {
            work
        }
    }

    /// The steps of a reverse execution at stage `stage`.
    pub open spec fn stage_home(&self, mode: Mode, stage: int, eager: Seq<bool>) -> Seq<Step> {
        let work = if stage >= self.last() {
            self.reverse_entry(mode)
        } else {
            self.return_to(mode, stage, eager)
        };
        if stage == 0 {
            work + self.reverse_end(mode)
        } else {
            work
        }
    }

    /// The steps of move `index` of a forward execution.
    pub open spec fn move_there(&self, mode: Mode, index: int, eager: Seq<bool>) -> Seq<Step> {
        if index % 2 == 0 {
            self.stage_there(mode, index / 2, eager)
        } else {
            seq![
                exchange_step(
                    index / 2,
                    self.carries_in(index / 2),
                    mode,
                    self.kind.spec_agrees(),
                ),
            ]
        }
    }

    /// The steps that undo move `index`, in a reverse execution.
    pub open spec fn move_home(&self, mode: Mode, index: int, eager: Seq<bool>) -> Seq<Step> {
        if index % 2 == 0 {
            self.stage_home(mode, index / 2, eager)
        } else {
            let exchange = seq![
                exchange_step(
                    index / 2,
                    self.carries_in(index / 2),
                    mode,
                    self.kind.spec_agrees(),
                ),
            ];
            if self.checks_early(mode, index / 2) {
                seq![
                    endpoint_step(Work::Validate, false, false),
                    endpoint_step(Work::Clear, false, false),
                ] + exchange
            } else {
                exchange
            }
        }
    }

    /// How a crew makes the moves of a forward execution.
    pub open spec fn makes_there<D, E, C: Crew<D, E>>(&self, crew: C, mode: Mode, eager: Seq<bool>) -> spec_fn(
        int,
        D,
        D,
    ) -> bool {
        |index: int, before: D, after: D|
            all_done::<D, E, C>(crew, self.move_there(mode, index, eager), before, after)
    }

    /// How a crew makes the moves of a reverse execution.
    pub open spec fn makes_home<D, E, C: Crew<D, E>>(&self, crew: C, mode: Mode, eager: Seq<bool>) -> spec_fn(
        int,
        D,
        D,
    ) -> bool {
        |index: int, before: D, after: D|
            all_done::<D, E, C>(crew, self.move_home(mode, index, eager), before, after)
    }

    proof fn lemma_leg_walks<D, E, C: Crew<D, E>>(
        &self,
        crew: C,
        mode: Mode,
        eager: Seq<bool>,
        stage: int,
        before: D,
        after: D,
    )
        requires
            self.wf(),
            0 <= stage < self.last(),
            all_done::<D, E, C>(crew, self.forward_leg(mode, stage, eager), before, after),
        ensures
            walks(
                self.makes_there::<D, E, C>(crew, mode, eager),
                2 * stage + 1,
                before,
                after,
            ),
        decreases stage,
    {
        let makes = self.makes_there::<D, E, C>(crew, mode, eager);
        if stage == 0 {
            assert(walked(makes, 0, before, after));
            lemma_walk_on(makes, 0, before, before, after);
        } else {
            self.lemma_last_leg::<D, E, C>(
                crew,
                mode,
                eager,
                stage,
                self.arrival(mode, stage, eager),
                before,
                after,
            );
        }
    }

    proof fn lemma_last_leg<D, E, C: Crew<D, E>>(
        &self,
        crew: C,
        mode: Mode,
        eager: Seq<bool>,
        stage: int,
        tail: Seq<Step>,
        before: D,
        after: D,
    )
        requires
            self.wf(),
            0 < stage <= self.last(),
            tail == self.stage_there(mode, stage, eager),
            all_done::<D, E, C>(
                crew,
                self.forward_leg(mode, stage - 1, eager).push(
                    exchange_step(
                        stage - 1,
                        self.carries_in(stage - 1),
                        mode,
                        self.kind.spec_agrees(),
                    ),
                ) + tail,
                before,
                after,
            ),
        ensures
            walks(
                self.makes_there::<D, E, C>(crew, mode, eager),
                2 * stage + 1,
                before,
                after,
            ),
        decreases stage, 0int,
    {
        let makes = self.makes_there::<D, E, C>(crew, mode, eager);
        let earlier = self.forward_leg(mode, stage - 1, eager);
        let exchange = seq![
            exchange_step(
                stage - 1,
                self.carries_in(stage - 1),
                mode,
                self.kind.spec_agrees(),
            ),
        ];
        assert(earlier.push(exchange[0]) =~= earlier + exchange);
        let arrived = lemma_all_done_split::<D, E, C>(
            crew,
            earlier + exchange,
            tail,
            before,
            after,
        );
        let left = lemma_all_done_split::<D, E, C>(crew, earlier, exchange, before, arrived);
        self.lemma_leg_walks::<D, E, C>(crew, mode, eager, stage - 1, before, left);
        assert((2 * stage - 1) / 2 == stage - 1 && (2 * stage - 1) % 2 == 1);
        assert(walked(makes, 2 * stage - 1, left, arrived));
        lemma_walk_on(makes, 2 * stage - 1, before, left, arrived);
        assert((2 * stage) / 2 == stage && (2 * stage) % 2 == 0);
        assert(walked(makes, 2 * stage, arrived, after));
        lemma_walk_on(makes, 2 * stage, before, arrived, after);
    }

    /// The steps of a forward execution are the moves of its journey, from the first to the last.
    pub proof fn lemma_forward_walks<D, E, C: Crew<D, E>>(
        &self,
        crew: C,
        mode: Mode,
        eager: Seq<bool>,
        before: D,
        after: D,
    )
        requires
            self.wf(),
            all_done::<D, E, C>(crew, self.forward_list(mode, eager), before, after),
        ensures
            walks(
                self.makes_there::<D, E, C>(crew, mode, eager),
                self.moves(),
                before,
                after,
            ),
    {
        let makes = self.makes_there::<D, E, C>(crew, mode, eager);
        let list = self.forward_list(mode, eager);
        let end = self.forward_end(mode);
        let leg = self.forward_leg(mode, self.last(), eager);
        assert(list =~= leg + end);
        if self.last() == 0 {
            assert(list =~= self.stage_there(mode, 0, eager));
            assert(walked(makes, 0, before, after));
            lemma_walk_on(makes, 0, before, before, after);
        } else {
            let tail = self.stage_there(mode, self.last(), eager);
            let head = self.forward_leg(mode, self.last() - 1, eager).push(
                exchange_step(
                    self.last() - 1,
                    self.carries_in(self.last() - 1),
                    mode,
                    self.kind.spec_agrees(),
                ),
            );
            assert(list =~= head + tail);
            self.lemma_last_leg::<D, E, C>(crew, mode, eager, self.last(), tail, before, after);
        }
    }

    proof fn lemma_leg_walks_back<D, E, C: Crew<D, E>>(
        &self,
        crew: C,
        mode: Mode,
        eager: Seq<bool>,
        stage: int,
        before: D,
        between: D,
        after: D,
    )
        requires
            self.wf(),
            0 < stage <= self.last(),
            all_done::<D, E, C>(crew, self.reverse_leg(mode, stage, eager), before, between),
            walks_back(
                self.makes_home::<D, E, C>(crew, mode, eager),
                2 * stage,
                between,
                after,
            ),
        ensures
            walks_back(
                self.makes_home::<D, E, C>(crew, mode, eager),
                self.moves(),
                before,
                after,
            ),
        decreases self.last() - stage,
    {
        let makes = self.makes_home::<D, E, C>(crew, mode, eager);
        assert((2 * stage) / 2 == stage && (2 * stage) % 2 == 0);
        if stage == self.last() {
            assert(walked(makes, 2 * stage, before, between));
            lemma_walk_back_on(makes, 2 * stage, before, between, after);
        } else {
            let above = self.reverse_leg(mode, stage + 1, eager);
            let exchange = self.move_home(mode, 2 * stage + 1, eager);
            let arrival = self.return_to(mode, stage, eager);
            assert((2 * stage + 1) / 2 == stage && (2 * stage + 1) % 2 == 1);
            assert(self.reverse_leg(mode, stage, eager) =~= (above + exchange) + arrival);
            let arrived = lemma_all_done_split::<D, E, C>(
                crew,
                above + exchange,
                arrival,
                before,
                between,
            );
            let left = lemma_all_done_split::<D, E, C>(crew, above, exchange, before, arrived);
            assert(walked(makes, 2 * stage, arrived, between));
            lemma_walk_back_on(makes, 2 * stage, arrived, between, after);
            assert(walked(makes, 2 * stage + 1, left, arrived));
            lemma_walk_back_on(makes, 2 * stage + 1, left, arrived, after);
            self.lemma_leg_walks_back::<D, E, C>(
                crew,
                mode,
                eager,
                stage + 1,
                before,
                left,
                after,
            );
        }
    }

    /// The steps of a reverse execution are the moves of its journey, from the last to the first.
    pub proof fn lemma_reverse_walks<D, E, C: Crew<D, E>>(
        &self,
        crew: C,
        mode: Mode,
        eager: Seq<bool>,
        before: D,
        after: D,
    )
        requires
            self.wf(),
            all_done::<D, E, C>(crew, self.reverse_list(mode, eager), before, after),
        ensures
            walks_back(
                self.makes_home::<D, E, C>(crew, mode, eager),
                self.moves(),
                before,
                after,
            ),
    {
        let makes = self.makes_home::<D, E, C>(crew, mode, eager);
        let list = self.reverse_list(mode, eager);
        let end = self.reverse_end(mode);
        assert(list =~= self.reverse_leg(mode, 0, eager) + end);
        assert(walks_back(makes, 0, after, after));
        if self.last() == 0 {
            assert(list =~= self.stage_home(mode, 0, eager));
            assert(walked(makes, 0, before, after));
            lemma_walk_back_on(makes, 0, before, after, after);
        } else {
            let above = self.reverse_leg(mode, 1, eager);
            let exchange = self.move_home(mode, 1, eager);
            let tail = self.stage_home(mode, 0, eager);
            assert(1int / 2 == 0 && 1int % 2 == 1);
            assert(list =~= (above + exchange) + tail);
            let arrived = lemma_all_done_split::<D, E, C>(
                crew,
                above + exchange,
                tail,
                before,
                after,
            );
            let left = lemma_all_done_split::<D, E, C>(crew, above, exchange, before, arrived);
            assert(walked(makes, 0, arrived, after));
            lemma_walk_back_on(makes, 0, arrived, after, after);
            assert(walked(makes, 1, left, arrived));
            lemma_walk_back_on(makes, 1, left, arrived, after);
            self.lemma_leg_walks_back::<D, E, C>(crew, mode, eager, 1, before, left, after);
        }
    }
}

} // verus!
