//! The exchanges between the stages of a plan.

use vstd::prelude::*;

use crate::layout::Direction;
use crate::layout::TransposeMethod;

verus! {

/// How an exchange moves values.
#[derive(Clone, Copy, Debug, PartialEq, Eq, Structural)]
pub enum ExchangeKind {
    /// Nothing moves: the layouts are the same.
    Identity,
    /// Values move within each process.
    Local,
    /// Processes send to each other one by one.
    PointToPoint,
    /// All processes exchange at once.
    AllToAllv,
}

impl ExchangeKind {
    /// The exchange does not stand in the way of overlap.
    pub open spec fn spec_allows_overlap(self) -> bool {
        self != ExchangeKind::AllToAllv
    }

    /// Tells whether the exchange does not stand in the way of overlap.
    pub fn allows_overlap(self) -> (yes: bool)
        ensures
            yes == self.spec_allows_overlap(),
    {
        match self {
            ExchangeKind::AllToAllv => false,
            _ => true,
        }
    }
}

/// The exchange between two stages, in both directions.
#[derive(Clone, Copy, Debug, PartialEq, Eq, Structural)]
pub struct Transition {
    /// From the earlier stage to the later one.
    pub forward: ExchangeKind,
    /// From the later stage to the earlier one.
    pub backward: ExchangeKind,
}

impl Transition {
    /// The exchange of an execution in `direction`.
    pub open spec fn spec_along(self, direction: Direction) -> ExchangeKind {
        if direction == Direction::Forward {
            self.forward
        } else {
            self.backward
        }
    }

    /// Returns the exchange of an execution in `direction`.
    pub fn along(&self, direction: Direction) -> (kind: ExchangeKind)
        ensures
            kind == self.spec_along(direction),
    {
        match direction {
            Direction::Forward => self.forward,
            _ => self.backward,
        }
    }
}

/// An exchange as it is asked for: which way it goes, and how it moves values.
#[derive(Clone, Copy, Debug, PartialEq, Eq, Structural)]
pub struct Passage {
    /// The direction of the execution.
    pub direction: Direction,
    /// How values move.
    pub kind: ExchangeKind,
}

impl Transition {
    /// The passage of an execution in `direction`.
    pub open spec fn spec_passage(self, direction: Direction) -> Passage {
        Passage { direction, kind: self.spec_along(direction) }
    }

    /// Returns the passage of an execution in `direction`.
    pub fn passage(&self, direction: Direction) -> (passage: Passage)
        ensures
            passage == self.spec_passage(direction),
    {
        Passage { direction, kind: self.along(direction) }
    }
}

/// The exchanges of a plan and the buffers that they need.
#[derive(Debug)]
pub struct TransitionPlan {
    /// Exchange `i` joins stage `i` and stage `i + 1`.
    pub transitions: Vec<Transition>,
    /// Complex elements that an exchange sends.
    pub send_len: usize,
    /// Complex elements that an exchange receives.
    pub receive_len: usize,
    /// Real elements that an exchange sends.
    pub real_send_len: usize,
    /// Real elements that an exchange receives.
    pub real_receive_len: usize,
}

/// The exchange by which a method moves values between processes.
pub open spec fn kind_of(method: TransposeMethod) -> ExchangeKind {
    match method {
        TransposeMethod::AllToAllv => ExchangeKind::AllToAllv,
        TransposeMethod::PointToPoint => ExchangeKind::PointToPoint,
    }
}

/// Each exchange moves nothing between processes, or does it by the method.
pub open spec fn move_by(transitions: Seq<Transition>, method: TransposeMethod) -> bool {
    forall|i: int, direction: Direction|
        0 <= i < transitions.len() ==> {
            let kind = #[trigger] transitions[i].spec_along(direction);
            kind == ExchangeKind::Identity || kind == ExchangeKind::Local || kind == kind_of(method)
        }
}

/// Tells whether an exchange moves nothing between processes, or does it by the method.
fn moves_by_kind(kind: ExchangeKind, method: TransposeMethod) -> (yes: bool)
    ensures
        yes == (kind == ExchangeKind::Identity || kind == ExchangeKind::Local || kind == kind_of(
            method,
        )),
{
    match (kind, method) {
        (ExchangeKind::Identity, _) => true,
        (ExchangeKind::Local, _) => true,
        (ExchangeKind::AllToAllv, TransposeMethod::AllToAllv) => true,
        (ExchangeKind::PointToPoint, TransposeMethod::PointToPoint) => true,
        _ => false,
    }
}

/// Tells whether each exchange moves nothing between processes, or does it by the method.
pub fn moves_by(transitions: &Vec<Transition>, method: TransposeMethod) -> (yes: bool)
    ensures
        yes == move_by(transitions@, method),
{
    let mut index: usize = 0;
    while index < transitions.len()
        invariant
            index <= transitions@.len(),
            move_by(transitions@.take(index as int), method),
        decreases transitions@.len() - index,
    {
        let next: Transition = transitions[index];
        if !moves_by_kind(next.forward, method) {
            assert(transitions@[index as int].spec_along(Direction::Forward) == next.forward);
            return false;
        }
        if !moves_by_kind(next.backward, method) {
            assert(transitions@[index as int].spec_along(Direction::Backward) == next.backward);
            return false;
        }
        proof {
            let longer = transitions@.take(index + 1);
            assert forall|i: int, direction: Direction| 0 <= i < longer.len() implies {
                let kind = #[trigger] longer[i].spec_along(direction);
                kind == ExchangeKind::Identity || kind == ExchangeKind::Local || kind == kind_of(
                    method,
                )
            } by {
                if i < index {
                    assert(longer[i] == transitions@.take(index as int)[i]);
                }
            }
        }
        index += 1;
    }
    assert(transitions@.take(index as int) =~= transitions@);
    true
}

/// Point-to-point exchanges allow overlap in every direction.
pub proof fn law_point_to_point_overlaps(transitions: Seq<Transition>, direction: Direction)
    requires
        move_by(transitions, TransposeMethod::PointToPoint),
    ensures
        overlaps(transitions, direction),
{
}

/// Every exchange of an execution allows overlap.
pub open spec fn overlaps(transitions: Seq<Transition>, direction: Direction) -> bool {
    forall|i: int|
        0 <= i < transitions.len() ==> (#[trigger] transitions[i]).spec_along(
            direction,
        ).spec_allows_overlap()
}

/// Tells whether every exchange of an execution allows overlap.
pub fn overlap_supported(transitions: &Vec<Transition>, direction: Direction) -> (supported: bool)
    ensures
        supported == overlaps(transitions@, direction),
{
    let mut index: usize = 0;
    while index < transitions.len()
        invariant
            index <= transitions@.len(),
            forall|i: int|
                0 <= i < index ==> (#[trigger] transitions@[i]).spec_along(
                    direction,
                ).spec_allows_overlap(),
        decreases transitions@.len() - index,
    {
        if !transitions[index].along(direction).allows_overlap() {
            assert(!transitions@[index as int].spec_along(direction).spec_allows_overlap());
            return false;
        }
        index += 1;
    }
    true
}

/// Which exchanges can run work inside their receive.
pub open spec fn eager_exchanges(transitions: Seq<Transition>, direction: Direction) -> Seq<bool> {
    Seq::new(
        transitions.len(),
        |i: int| transitions[i].spec_along(direction) == ExchangeKind::PointToPoint,
    )
}

/// Returns which exchanges can run work inside their receive.
pub fn eager_list(transitions: &Vec<Transition>, direction: Direction) -> (eager: Vec<bool>)
    ensures
        eager@ == eager_exchanges(transitions@, direction),
{
    let mut eager: Vec<bool> = Vec::new();
    let mut index: usize = 0;
    while index < transitions.len()
        invariant
            index <= transitions@.len(),
            eager@ == eager_exchanges(transitions@, direction).take(index as int),
        decreases transitions@.len() - index,
    {
        eager.push(transitions[index].along(direction) == ExchangeKind::PointToPoint);
        index += 1;
        assert(eager@ =~= eager_exchanges(transitions@, direction).take(index as int));
    }
    assert(eager@ =~= eager_exchanges(transitions@, direction));
    eager
}

} // verus!
