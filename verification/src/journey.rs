//! What happens to the values that a schedule carries.

use vstd::prelude::*;

use crate::schedule::arrive_step;
use crate::schedule::copy_step;
use crate::schedule::endpoint_step;
use crate::schedule::exchange_step;
use crate::schedule::Itinerary;
use crate::schedule::Mode;
use crate::schedule::Slot;
use crate::schedule::Step;
use crate::schedule::Work;

verus! {

/// The kernels and exchanges that the values in each written slot have gone through.
pub type Histories = Map<Slot, Seq<Work>>;

/// What a step adds to the history of the values that it carries.
pub open spec fn mark(work: Work) -> Seq<Work> {
    match work {
        Work::Kernel(_) => seq![work],
        Work::Exchange(_) => seq![work],
        _ => seq![],
    }
}

/// The histories behind a step; none if it reads a slot that nothing was written to.
pub open spec fn after_step(step: Step, histories: Histories) -> Option<Histories> {
    if histories.contains_key(step.from) {
        Some(histories.insert(step.to, histories[step.from] + mark(step.work)))
    } else {
        None
    }
}

/// The histories behind a list of steps.
pub open spec fn after_steps(steps: Seq<Step>, histories: Histories) -> Option<Histories>
    decreases steps.len(),
{
    if steps.len() == 0 {
        Some(histories)
    } else {
        match after_steps(steps.drop_last(), histories) {
            Some(before) => after_step(steps.last(), before),
            None => None,
        }
    }
}

proof fn lemma_after_push(steps: Seq<Step>, step: Step, histories: Histories)
    ensures
        after_steps(steps.push(step), histories) == match after_steps(steps, histories) {
            Some(before) => after_step(step, before),
            None => None,
        },
{
    assert(steps.push(step).drop_last() =~= steps);
}

/// Steps after steps continue from their histories.
pub proof fn lemma_after_concat(first: Seq<Step>, second: Seq<Step>, histories: Histories)
    ensures
        after_steps(first + second, histories) == match after_steps(first, histories) {
            Some(before) => after_steps(second, before),
            None => None,
        },
    decreases second.len(),
{
    if second.len() == 0 {
        assert(first + second =~= first);
    } else {
        assert((first + second).drop_last() =~= first + second.drop_last());
        lemma_after_concat(first, second.drop_last(), histories);
    }
}

proof fn lemma_after_one(step: Step, histories: Histories)
    ensures
        after_steps(seq![step], histories) == after_step(step, histories),
{
    assert(seq![step].drop_last() =~= Seq::<Step>::empty());
    assert(after_steps(Seq::<Step>::empty(), histories) == Some(histories));
}

proof fn lemma_after_two(first: Step, second: Step, histories: Histories)
    ensures
        after_steps(seq![first, second], histories) == match after_step(first, histories) {
            Some(before) => after_step(second, before),
            None => None,
        },
{
    lemma_after_one(first, histories);
    lemma_after_push(seq![first], second, histories);
    assert(seq![first].push(second) =~= seq![first, second]);
}

proof fn lemma_after_three(first: Step, second: Step, third: Step, histories: Histories)
    ensures
        after_steps(seq![first, second, third], histories) == match after_steps(
            seq![first, second],
            histories,
        ) {
            Some(before) => after_step(third, before),
            None => None,
        },
{
    lemma_after_push(seq![first, second], third, histories);
    assert(seq![first, second].push(third) =~= seq![first, second, third]);
}

proof fn lemma_reverse_concat<A>(first: Seq<A>, second: Seq<A>)
    ensures
        (first + second).reverse() == second.reverse() + first.reverse(),
{
    assert((first + second).reverse() =~= second.reverse() + first.reverse());
}

impl Itinerary {
    /// Stage `stage` has a kernel.
    pub open spec fn works_at(&self, stage: int) -> bool {
        self.kind.spec_has_prefix() || stage >= self.boundary
    }

    /// The kernels and exchanges between the source and stage `stage`, that stage included.
    pub open spec fn journey(&self, stage: int) -> Seq<Work>
        decreases stage,
    {
        let kernel = if self.works_at(stage) {
            seq![Work::Kernel(stage as usize)]
        } else {
            seq![]
        };
        if stage <= 0 {
            kernel
        } else {
            self.journey(stage - 1).push(Work::Exchange((stage - 1) as usize)) + kernel
        }
    }

    /// The kernels and exchanges between the last stage and stage `stage`, both included.
    pub open spec fn return_journey(&self, stage: int) -> Seq<Work>
        decreases self.last() - stage,
    {
        let kernel = if self.works_at(stage) {
            seq![Work::Kernel(stage as usize)]
        } else {
            seq![]
        };
        if stage >= self.last() {
            kernel
        } else {
            self.return_journey(stage + 1).push(Work::Exchange(stage as usize)) + kernel
        }
    }

    /// Where the values lie before a forward execution.
    pub open spec fn starts_in(&self, mode: Mode) -> Slot {
        if mode != Mode::InPlace {
            Slot::Source
        } else if self.kind.spec_has_boundary() {
            Slot::Real
        } else {
            Slot::Complex
        }
    }

    /// Where the values lie behind a forward execution.
    pub open spec fn ends_in(&self, mode: Mode) -> Slot {
        if mode != Mode::InPlace {
            Slot::Destination
        } else {
            Slot::Complex
        }
    }

    /// Where the values lie before a reverse execution.
    pub open spec fn returns_from(&self, mode: Mode) -> Slot {
        if mode != Mode::InPlace {
            Slot::Source
        } else {
            Slot::Complex
        }
    }

    /// Where the values lie behind a reverse execution.
    pub open spec fn returns_to(&self, mode: Mode) -> Slot {
        if mode != Mode::InPlace {
            Slot::Destination
        } else if self.kind.spec_has_boundary() {
            Slot::Real
        } else {
            Slot::Complex
        }
    }

    /// Where the values lie once a forward execution has reached stage `stage`.
    pub open spec fn reached_in(&self, mode: Mode, stage: int) -> Slot {
        if stage < self.boundary {
            Slot::Real
        } else if stage == self.last() && stage > self.boundary && mode == Mode::OutOfPlace {
            Slot::Destination
        } else {
            Slot::Complex
        }
    }

    /// Where the values lie once a reverse execution has reached stage `stage`.
    pub open spec fn left_in(&self, mode: Mode, stage: int) -> Slot {
        if stage > self.boundary {
            Slot::Complex
        } else if !self.kind.spec_has_boundary() {
            if mode == Mode::OutOfPlace {
                Slot::Destination
            } else {
                Slot::Complex
            }
        } else if stage == 0 && mode == Mode::OutOfPlace {
            Slot::Destination
        } else if self.boundary == 0 && mode != Mode::InPlace {
            Slot::Destination
        } else {
            Slot::Real
        }
    }

    proof fn lemma_forward_leg(&self, mode: Mode, stage: int, eager: Seq<bool>)
        requires
            self.wf(),
            0 <= stage <= self.last(),
        ensures
            match after_steps(
                self.forward_leg(mode, stage, eager),
                map![self.starts_in(mode) => Seq::<Work>::empty()],
            ) {
                Some(after) => after.contains_key(self.reached_in(mode, stage))
                    && after[self.reached_in(mode, stage)] == self.journey(stage),
                None => false,
            },
        decreases stage,
    {
        let start = map![self.starts_in(mode) => Seq::<Work>::empty()];
        if stage == 0 {
            if self.entry(mode).len() == 0 {
                assert(self.entry(mode) =~= Seq::<Step>::empty());
                assert(self.journey(0) =~= Seq::<Work>::empty());
            } else {
                let step = self.entry(mode)[0];
                assert(self.entry(mode) =~= seq![step]);
                lemma_after_one(step, start);
                assert(Seq::<Work>::empty() + mark(step.work) =~= self.journey(0));
            }
        } else {
            self.lemma_forward_leg(mode, stage - 1, eager);
            let earlier = self.forward_leg(mode, stage - 1, eager);
            let exchange = exchange_step(
                stage - 1,
                if stage <= self.boundary {
                    Slot::Real
                } else {
                    Slot::Complex
                },
                mode,
                self.kind.spec_agrees(),
            );
            lemma_after_push(earlier, exchange, start);
            let exchanged = after_steps(earlier.push(exchange), start)->0;
            let arrival = self.arrival(mode, stage, eager);
            lemma_after_concat(earlier.push(exchange), arrival, start);
            assert(exchanged[exchange.to] =~= self.journey(stage - 1).push(exchange.work));
            if arrival.len() == 0 {
                assert(arrival =~= Seq::<Step>::empty());
                assert(self.journey(stage) =~= self.journey(stage - 1).push(exchange.work));
            } else {
                let step = arrival[0];
                assert(arrival =~= seq![step]);
                lemma_after_one(step, exchanged);
            }
        }
    }

    /// A forward execution carries the values through every kernel and every exchange once, from
    /// the first stage to the last, however it is executed.
    pub proof fn law_forward_journey(&self, mode: Mode, eager: Seq<bool>)
        requires
            self.wf(),
        ensures
            match after_steps(
                self.forward_list(mode, eager),
                map![self.starts_in(mode) => Seq::<Work>::empty()],
            ) {
                Some(after) => after.contains_key(self.ends_in(mode)) && after[self.ends_in(mode)]
                    == self.journey(self.last()),
                None => false,
            },
    {
        let start = map![self.starts_in(mode) => Seq::<Work>::empty()];
        self.lemma_forward_leg(mode, self.last(), eager);
        let leg = self.forward_leg(mode, self.last(), eager);
        let copy = copy_step(Slot::Complex, Slot::Destination, false);
        lemma_after_push(leg, copy, start);
        lemma_after_push(leg, arrive_step(Slot::Complex), start);
        assert(self.journey(self.last()) + mark(Work::Copy) =~= self.journey(self.last()));
        assert(self.journey(self.last()) + mark(Work::Arrive) =~= self.journey(self.last()));
    }

    proof fn lemma_crossing(&self, mode: Mode, checked: bool, agreed: bool, within: bool, histories: Histories)
        requires
            self.wf(),
            histories.contains_key(Slot::Complex),
        ensures
            match after_steps(self.crossing(mode, checked, agreed, within), histories) {
                Some(after) => {
                    let to = self.left_in(mode, self.boundary as int);
                    after.contains_key(to) && after[to] == histories[Slot::Complex].push(
                        Work::Kernel(self.boundary),
                    )
                },
                None => false,
            },
    {
        let steps = self.crossing(mode, checked, agreed, within);
        if checked {
            assert(steps =~= seq![steps[0], steps[1], steps[2]]);
            lemma_after_two(steps[0], steps[1], histories);
            lemma_after_three(steps[0], steps[1], steps[2], histories);
            let validated = after_step(steps[0], histories)->0;
            assert(validated[Slot::Complex] =~= histories[Slot::Complex]);
            let cleared = after_step(steps[1], validated)->0;
            assert(cleared[Slot::Complex] =~= histories[Slot::Complex]);
            assert(cleared[Slot::Complex] + mark(Work::Kernel(self.boundary))
                =~= histories[Slot::Complex].push(Work::Kernel(self.boundary)));
        } else {
            assert(steps =~= seq![steps[0]]);
            lemma_after_one(steps[0], histories);
            assert(histories[Slot::Complex] + mark(Work::Kernel(self.boundary))
                =~= histories[Slot::Complex].push(Work::Kernel(self.boundary)));
        }
    }

    proof fn lemma_reverse_entry(&self, mode: Mode)
        requires
            self.wf(),
        ensures
            match after_steps(
                self.reverse_entry(mode),
                map![self.returns_from(mode) => Seq::<Work>::empty()],
            ) {
                Some(after) => after.contains_key(self.left_in(mode, self.last()))
                    && after[self.left_in(mode, self.last())] == self.return_journey(self.last()),
                None => false,
            },
    {
        let start = map![self.returns_from(mode) => Seq::<Work>::empty()];
        let agreed = self.kind.spec_agrees();
        let at_boundary = self.boundary == self.last();
        let steps = self.reverse_entry(mode);
        assert(self.return_journey(self.last()) =~= seq![Work::Kernel(self.last() as usize)]);
        if at_boundary && (mode != Mode::Overlap || self.kind.spec_has_boundary()) {
            let crossing = self.crossing(mode, self.kind.spec_has_boundary(), agreed, false);
            if mode == Mode::InPlace {
                assert(steps =~= crossing);
                self.lemma_crossing(mode, self.kind.spec_has_boundary(), agreed, false, start);
                assert(Seq::<Work>::empty().push(Work::Kernel(self.boundary))
                    =~= self.return_journey(self.last()));
            } else {
                let copy = copy_step(Slot::Source, Slot::Complex, agreed);
                lemma_after_one(copy, start);
                let entered = after_step(copy, start)->0;
                assert(entered[Slot::Complex] =~= Seq::<Work>::empty());
                lemma_after_concat(seq![copy], crossing, start);
                self.lemma_crossing(mode, self.kind.spec_has_boundary(), agreed, false, entered);
                assert(Seq::<Work>::empty().push(Work::Kernel(self.boundary))
                    =~= self.return_journey(self.last()));
            }
        } else {
            assert(steps =~= seq![steps[0]]);
            lemma_after_one(steps[0], start);
            assert(Seq::<Work>::empty() + mark(steps[0].work) =~= self.return_journey(self.last()));
        }
    }

    proof fn lemma_early_check(&self, mode: Mode, stage: int, above: Seq<Step>, start: Histories)
        requires
            after_steps(above, start) matches Some(before) && before.contains_key(Slot::Complex),
        ensures
            match after_steps(
                above + seq![
                    endpoint_step(Work::Validate, false, false),
                    endpoint_step(Work::Clear, false, false),
                ],
                start,
            ) {
                Some(after) => after.contains_key(Slot::Complex) && after[Slot::Complex]
                    == after_steps(above, start)->0[Slot::Complex],
                None => false,
            },
    {
        let validate = endpoint_step(Work::Validate, false, false);
        let clear = endpoint_step(Work::Clear, false, false);
        let before = after_steps(above, start)->0;
        lemma_after_concat(above, seq![validate, clear], start);
        lemma_after_two(validate, clear, before);
        let validated = after_step(validate, before)->0;
        assert(validated[Slot::Complex] =~= before[Slot::Complex]);
        let cleared = after_step(clear, validated)->0;
        assert(cleared[Slot::Complex] =~= before[Slot::Complex]);
    }

    proof fn lemma_return(&self, mode: Mode, stage: int, eager: Seq<bool>, histories: Histories, at: Slot)
        requires
            self.wf(),
            0 <= stage < self.last(),
            at == (if stage < self.boundary {
                Slot::Real
            } else {
                Slot::Complex
            }),
            histories.contains_key(at),
            histories[at] == self.return_journey(stage + 1).push(Work::Exchange(stage as usize)),
        ensures
            match after_steps(self.return_to(mode, stage, eager), histories) {
                Some(after) => after.contains_key(self.left_in(mode, stage)) && after[self.left_in(
                    mode,
                    stage,
                )] == self.return_journey(stage),
                None => false,
            },
    {
        let arrival = self.return_to(mode, stage, eager);
        let travelled = self.return_journey(stage + 1).push(Work::Exchange(stage as usize));
        if stage == self.boundary {
            let within = mode == Mode::Overlap && eager[stage];
            let agreed = self.kind.spec_agrees() && (mode != Mode::Overlap || (!within
                && self.kind.spec_has_boundary()));
            self.lemma_crossing(
                mode,
                self.kind.spec_has_boundary() && !self.checks_early(mode, stage),
                agreed,
                within,
                histories,
            );
            assert(self.return_journey(stage) =~= travelled.push(Work::Kernel(self.boundary)));
        } else if arrival.len() == 0 {
            assert(arrival =~= Seq::<Step>::empty());
            assert(self.return_journey(stage) =~= travelled);
        } else {
            let step = arrival[0];
            assert(arrival =~= seq![step]);
            lemma_after_one(step, histories);
            assert(travelled + mark(step.work) =~= self.return_journey(stage));
        }
    }

    proof fn lemma_reverse_leg(&self, mode: Mode, stage: int, eager: Seq<bool>)
        requires
            self.wf(),
            0 <= stage <= self.last(),
        ensures
            match after_steps(
                self.reverse_leg(mode, stage, eager),
                map![self.returns_from(mode) => Seq::<Work>::empty()],
            ) {
                Some(after) => after.contains_key(self.left_in(mode, stage)) && after[self.left_in(
                    mode,
                    stage,
                )] == self.return_journey(stage),
                None => false,
            },
        decreases self.last() - stage,
    {
        let start = map![self.returns_from(mode) => Seq::<Work>::empty()];
        if stage == self.last() {
            self.lemma_reverse_entry(mode);
        } else {
            self.lemma_reverse_leg(mode, stage + 1, eager);
            let above = self.reverse_leg(mode, stage + 1, eager);
            let checked = if self.checks_early(mode, stage) {
                above + seq![
                    endpoint_step(Work::Validate, false, false),
                    endpoint_step(Work::Clear, false, false),
                ]
            } else {
                above
            };
            let at = if stage < self.boundary {
                Slot::Real
            } else {
                Slot::Complex
            };
            assert(self.left_in(mode, stage + 1) == at);
            if self.checks_early(mode, stage) {
                self.lemma_early_check(mode, stage, above, start);
            }
            let exchange = exchange_step(stage, at, mode, self.kind.spec_agrees());
            lemma_after_push(checked, exchange, start);
            let exchanged = after_steps(checked.push(exchange), start)->0;
            assert(exchanged[at] =~= self.return_journey(stage + 1).push(exchange.work));
            let arrival = self.return_to(mode, stage, eager);
            lemma_after_concat(checked.push(exchange), arrival, start);
            self.lemma_return(mode, stage, eager, exchanged, at);
        }
    }

    /// A reverse execution carries the values through every kernel and every exchange once, from
    /// the last stage to the first, however it is executed.
    pub proof fn law_reverse_journey(&self, mode: Mode, eager: Seq<bool>)
        requires
            self.wf(),
        ensures
            match after_steps(
                self.reverse_list(mode, eager),
                map![self.returns_from(mode) => Seq::<Work>::empty()],
            ) {
                Some(after) => after.contains_key(self.returns_to(mode))
                    && after[self.returns_to(mode)] == self.return_journey(0),
                None => false,
            },
    {
        let start = map![self.returns_from(mode) => Seq::<Work>::empty()];
        self.lemma_reverse_leg(mode, 0, eager);
        let leg = self.reverse_leg(mode, 0, eager);
        lemma_after_push(leg, copy_step(Slot::Complex, Slot::Destination, false), start);
        lemma_after_push(leg, copy_step(Slot::Real, Slot::Destination, false), start);
        lemma_after_push(leg, arrive_step(Slot::Real), start);
        assert(self.return_journey(0) + mark(Work::Copy) =~= self.return_journey(0));
        assert(self.return_journey(0) + mark(Work::Arrive) =~= self.return_journey(0));
    }

    /// The part of the journey before the kernel of stage `stage`.
    pub open spec fn before_kernel(&self, stage: int) -> Seq<Work> {
        if stage > 0 {
            self.journey(stage - 1).push(Work::Exchange((stage - 1) as usize))
        } else {
            Seq::<Work>::empty()
        }
    }

    proof fn lemma_mirror(&self, stage: int)
        requires
            self.wf(),
            0 <= stage <= self.last(),
        ensures
            self.journey(self.last()).reverse() == self.return_journey(stage) + self.before_kernel(
                stage,
            ).reverse(),
        decreases self.last() - stage,
    {
        let kernel = if self.works_at(stage) {
            seq![Work::Kernel(stage as usize)]
        } else {
            Seq::<Work>::empty()
        };
        let below = self.before_kernel(stage);
        assert(kernel.reverse() =~= kernel);
        assert(self.journey(stage) =~= below + kernel);
        lemma_reverse_concat(below, kernel);
        if stage < self.last() {
            self.lemma_mirror(stage + 1);
            let exchange = seq![Work::Exchange(stage as usize)];
            assert(self.before_kernel(stage + 1) =~= (below + kernel) + exchange);
            lemma_reverse_concat(below + kernel, exchange);
            assert(exchange.reverse() =~= exchange);
            assert(self.return_journey(stage) =~= self.return_journey(stage + 1) + exchange
                + kernel);
            assert(self.return_journey(stage + 1) + (exchange + (kernel + below.reverse()))
                =~= self.return_journey(stage) + below.reverse());
        }
    }

    /// The way back is the way there, backwards.
    pub proof fn law_return_mirrors_journey(&self)
        requires
            self.wf(),
        ensures
            self.return_journey(0) == self.journey(self.last()).reverse(),
    {
        self.lemma_mirror(0);
        assert(self.return_journey(0) + Seq::<Work>::empty() =~= self.return_journey(0));
    }
}

/// A step before the endpoint check: it leaves the arrays of the caller alone, and its kernel lies
/// behind the boundary.
pub open spec fn before_check(step: Step, boundary: int) -> bool {
    &&& step.to != Slot::Source
    &&& step.to != Slot::Destination
    &&& match step.work {
        Work::Kernel(stage) => stage > boundary,
        Work::Validate => false,
        Work::Clear => false,
        _ => true,
    }
}

/// A step behind the endpoint check: it leaves the source alone, and its kernel lies at the
/// boundary or before it.
pub open spec fn behind_check(step: Step, boundary: int) -> bool {
    &&& step.to != Slot::Source
    &&& match step.work {
        Work::Kernel(stage) => stage <= boundary,
        Work::Validate => false,
        Work::Clear => false,
        _ => true,
    }
}

/// All steps come before the endpoint check.
pub open spec fn all_before_check(steps: Seq<Step>, boundary: int) -> bool {
    forall|i: int| 0 <= i < steps.len() ==> before_check(#[trigger] steps[i], boundary)
}

/// All steps come behind the endpoint check.
pub open spec fn all_behind_check(steps: Seq<Step>, boundary: int) -> bool {
    forall|i: int| 0 <= i < steps.len() ==> behind_check(#[trigger] steps[i], boundary)
}

/// The endpoint planes are checked at step `at` and cleared at the next, once.
pub open spec fn checked_at(steps: Seq<Step>, boundary: int, at: int) -> bool {
    &&& 0 <= at < steps.len() - 1
    &&& steps[at].work == Work::Validate
    &&& steps[at].to == Slot::Complex
    &&& steps[at + 1].work == Work::Clear
    &&& steps[at + 1].to == Slot::Complex
    &&& forall|i: int| 0 <= i < at ==> before_check(#[trigger] steps[i], boundary)
    &&& forall|i: int| at + 1 < i < steps.len() ==> behind_check(#[trigger] steps[i], boundary)
}

proof fn lemma_check_after(head: Seq<Step>, checks: Seq<Step>, boundary: int)
    requires
        all_before_check(head, boundary),
        checked_at(checks, boundary, 0),
    ensures
        checked_at(head + checks, boundary, head.len() as int),
{
    let steps = head + checks;
    assert forall|i: int| head.len() + 1 < i < steps.len() implies behind_check(
        #[trigger] steps[i],
        boundary,
    ) by {
        assert(steps[i] == checks[i - head.len()]);
    }
    assert(steps[head.len() as int] == checks[0]);
    assert(steps[head.len() as int + 1] == checks[1]);
}

proof fn lemma_check_before(steps: Seq<Step>, tail: Seq<Step>, boundary: int, at: int)
    requires
        checked_at(steps, boundary, at),
        all_behind_check(tail, boundary),
    ensures
        checked_at(steps + tail, boundary, at),
{
    let all = steps + tail;
    assert forall|i: int| at + 1 < i < all.len() implies behind_check(#[trigger] all[i], boundary) by {
        if i >= steps.len() {
            assert(all[i] == tail[i - steps.len()]);
        }
    }
}

impl Itinerary {
    proof fn lemma_calm_leg(&self, mode: Mode, stage: int, eager: Seq<bool>)
        requires
            self.wf(),
            self.kind.spec_has_boundary(),
            self.boundary < stage <= self.last(),
        ensures
            all_before_check(self.reverse_leg(mode, stage, eager), self.boundary as int),
        decreases self.last() - stage,
    {
        if stage < self.last() {
            self.lemma_calm_leg(mode, stage + 1, eager);
        }
    }

    proof fn lemma_checked_leg(&self, mode: Mode, stage: int, eager: Seq<bool>) -> (at: int)
        requires
            self.wf(),
            self.kind.spec_has_boundary(),
            0 <= stage <= self.boundary,
        ensures
            checked_at(self.reverse_leg(mode, stage, eager), self.boundary as int, at),
        decreases self.boundary - stage,
    {
        let b = self.boundary as int;
        let steps = self.reverse_leg(mode, stage, eager);
        if stage < self.boundary {
            let at = self.lemma_checked_leg(mode, stage + 1, eager);
            let above = self.reverse_leg(mode, stage + 1, eager);
            let exchange = exchange_step(stage, Slot::Real, mode, self.kind.spec_agrees());
            let tail = seq![exchange] + self.return_to(mode, stage, eager);
            assert(steps =~= above + tail);
            assert(all_behind_check(tail, b));
            lemma_check_before(above, tail, b, at);
            at
        } else if stage == self.last() {
            let agreed = self.kind.spec_agrees();
            let crossing = self.crossing(mode, true, agreed, false);
            assert(checked_at(crossing, b, 0));
            if mode == Mode::InPlace {
                assert(steps =~= crossing);
                0
            } else {
                let head = seq![copy_step(Slot::Source, Slot::Complex, agreed)];
                assert(all_before_check(head, b));
                lemma_check_after(head, crossing, b);
                1
            }
        } else {
            self.lemma_calm_leg(mode, stage + 1, eager);
            let above = self.reverse_leg(mode, stage + 1, eager);
            let exchange = exchange_step(stage, Slot::Complex, mode, self.kind.spec_agrees());
            let arrival = self.return_to(mode, stage, eager);
            if self.checks_early(mode, stage) {
                let checks = seq![
                    endpoint_step(Work::Validate, false, false),
                    endpoint_step(Work::Clear, false, false),
                ];
                assert(checked_at(checks, b, 0));
                lemma_check_after(above, checks, b);
                let tail = seq![exchange] + arrival;
                assert(all_behind_check(tail, b));
                assert(steps =~= (above + checks) + tail);
                lemma_check_before(above + checks, tail, b, above.len() as int);
                above.len() as int
            } else {
                let head = above.push(exchange);
                assert(all_before_check(head, b));
                assert(checked_at(arrival, b, 0));
                lemma_check_after(head, arrival, b);
                head.len() as int
            }
        }
    }

    /// A reverse execution of a plan with a boundary checks the endpoint planes and then clears
    /// them, once; all kernels behind the boundary come before that, and those at it or before it
    /// come after. Until then neither the source nor the destination is written.
    pub proof fn law_endpoints_checked_first(&self, mode: Mode, eager: Seq<bool>) -> (at: int)
        requires
            self.wf(),
            self.kind.spec_has_boundary(),
        ensures
            checked_at(self.reverse_list(mode, eager), self.boundary as int, at),
    {
        let at = self.lemma_checked_leg(mode, 0, eager);
        let leg = self.reverse_leg(mode, 0, eager);
        let tail = seq![copy_step(Slot::Real, Slot::Destination, false)];
        assert(leg + tail =~= leg.push(tail[0]));
        assert(all_behind_check(tail, self.boundary as int));
        lemma_check_before(leg, tail, self.boundary as int, at);
        let end = seq![arrive_step(Slot::Real)];
        assert(leg + end =~= leg.push(end[0]));
        assert(all_behind_check(end, self.boundary as int));
        lemma_check_before(leg, end, self.boundary as int, at);
        at
    }

    proof fn lemma_forward_leg_keeps_source(&self, mode: Mode, stage: int, eager: Seq<bool>)
        requires
            self.wf(),
            0 <= stage,
        ensures
            forall|i: int|
                0 <= i < self.forward_leg(mode, stage, eager).len() ==> (
                #[trigger] self.forward_leg(mode, stage, eager)[i]).to != Slot::Source,
        decreases stage,
    {
        if stage > 0 {
            self.lemma_forward_leg_keeps_source(mode, stage - 1, eager);
        }
    }

    proof fn lemma_reverse_leg_keeps_source(&self, mode: Mode, stage: int, eager: Seq<bool>)
        requires
            self.wf(),
            0 <= stage <= self.last(),
        ensures
            forall|i: int|
                0 <= i < self.reverse_leg(mode, stage, eager).len() ==> (
                #[trigger] self.reverse_leg(mode, stage, eager)[i]).to != Slot::Source,
        decreases self.last() - stage,
    {
        if stage < self.last() {
            self.lemma_reverse_leg_keeps_source(mode, stage + 1, eager);
        }
    }

    /// No execution writes to its source.
    pub proof fn law_source_kept(&self, mode: Mode, eager: Seq<bool>)
        requires
            self.wf(),
        ensures
            forall|i: int|
                0 <= i < self.forward_list(mode, eager).len() ==> (#[trigger] self.forward_list(
                    mode,
                    eager,
                )[i]).to != Slot::Source,
            forall|i: int|
                0 <= i < self.reverse_list(mode, eager).len() ==> (#[trigger] self.reverse_list(
                    mode,
                    eager,
                )[i]).to != Slot::Source,
    {
        self.lemma_forward_leg_keeps_source(mode, self.last(), eager);
        self.lemma_reverse_leg_keeps_source(mode, 0, eager);
    }
}

} // verus!
