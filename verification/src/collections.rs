//! Executions over a collection: the members are checked before any is executed, executed in
//! order, and the first failure ends the execution.

use vstd::prelude::*;

use crate::error::CollectionError;
use crate::error::FftError;
use crate::layout::Direction;
use crate::words::operation_word_of;
use crate::words::word_for;
use crate::words::Operation;
use crate::words::PlanFamily;
use crate::words::DESCRIPTOR_SCHEMA;

verus! {

/// What is asked of the other processes during an execution over a collection.
#[derive(Debug)]
pub struct Peers<H, D, A> {
    /// Do all processes have this header?
    pub header: H,
    /// Do all processes execute this operation of this plan?
    pub descriptor: D,
    /// Could all processes go on?
    pub agree: A,
}

/// Every question can be asked.
pub open spec fn peers_answer<H: Fn([u64; 5]) -> bool, D: Fn(u64, &Vec<u64>) -> Result<(), FftError>, A: Fn(bool) -> bool>(
    peers: Peers<H, D, A>,
) -> bool {
    &&& forall|words: [u64; 5]| #[trigger] peers.header.requires((words,))
    &&& forall|operation: u64, words: &Vec<u64>| #[trigger]
        peers.descriptor.requires((operation, words))
    &&& forall|valid: bool| #[trigger] peers.agree.requires((valid,))
}

/// An execution over a collection.
#[derive(Clone, Copy, Debug, PartialEq, Eq, Structural)]
pub struct ManyCall {
    /// The plan.
    pub family: PlanFamily,
    /// Which way it goes.
    pub direction: Direction,
    /// Whether it works in one buffer for each member.
    pub in_place: bool,
    /// Number of sources.
    pub sources: usize,
    /// Number of destinations.
    pub destinations: usize,
}

impl ManyCall {
    /// The operation of the execution.
    pub open spec fn operation(self) -> Operation {
        Operation::Many { direction: self.direction, in_place: self.in_place }
    }

    /// The words that the processes compare first.
    pub open spec fn header(self) -> Seq<u64> {
        seq![
            DESCRIPTOR_SCHEMA,
            operation_word_of(self.operation())->0,
            self.sources as u64,
            self.destinations as u64,
            self.family.spec_word(),
        ]
    }
}

/// What becomes of the agreement on a plan: a difference counts as one of headers.
pub open spec fn plan_agreed<E>(outcome: Result<(), FftError>) -> Result<(), CollectionError<E>> {
    match outcome {
        Ok(_) => Ok(()),
        Err(FftError::CollectiveDescriptorMismatch) => Err(CollectionError::HeaderMismatch),
        Err(error) => Err(CollectionError::Descriptor { error }),
    }
}

/// What starting an execution comes to: the headers must agree, then there must be as many
/// destinations as sources, then a member at all, then the plans must agree.
pub open spec fn begun<E, H: Fn([u64; 5]) -> bool, D: Fn(u64, &Vec<u64>) -> Result<(), FftError>, A>(
    peers: Peers<H, D, A>,
    call: ManyCall,
    descriptor: Vec<u64>,
    outcome: Result<(), CollectionError<E>>,
) -> bool {
    exists|header: [u64; 5], same: bool|
        {
            &&& header@ == call.header()
            &&& #[trigger] peers.header.ensures((header,), same)
            &&& if !same {
                outcome == Err::<(), CollectionError<E>>(CollectionError::HeaderMismatch)
            } else if call.sources != call.destinations {
                outcome == Err::<(), CollectionError<E>>(
                    CollectionError::CountMismatch {
                        sources: call.sources,
                        destinations: call.destinations,
                    },
                )
            } else if call.sources == 0 {
                outcome == Err::<(), CollectionError<E>>(CollectionError::Empty)
            } else {
                exists|answer: Result<(), FftError>| #[trigger]
                    peers.descriptor.ensures(
                        (operation_word_of(call.operation())->0, &descriptor),
                        answer,
                    ) && outcome == plan_agreed::<E>(answer)
            }
        }
}

/// Starts an execution over a collection.
pub fn begin<E, H: Fn([u64; 5]) -> bool, D: Fn(u64, &Vec<u64>) -> Result<(), FftError>, A: Fn(bool) -> bool>(
    peers: &Peers<H, D, A>,
    call: ManyCall,
    descriptor: &Vec<u64>,
) -> (outcome: Result<(), CollectionError<E>>)
    requires
        peers_answer(*peers),
    ensures
        begun(*peers, call, *descriptor, outcome),
        outcome is Ok ==> call.sources == call.destinations,
{
    let operation: u64 = word_for(
        Operation::Many { direction: call.direction, in_place: call.in_place },
    );
    let header: [u64; 5] = [
        DESCRIPTOR_SCHEMA,
        operation,
        call.sources as u64,
        call.destinations as u64,
        call.family.word(),
    ];
    assert(header@ =~= call.header());
    let question = &peers.header;
    let same: bool = question(header);
    assert(peers.header.ensures((header,), same));
    if !same {
        return Err(CollectionError::HeaderMismatch);
    }
    if call.sources != call.destinations {
        return Err(
            CollectionError::CountMismatch {
                sources: call.sources,
                destinations: call.destinations,
            },
        );
    }
    if call.sources == 0 {
        return Err(CollectionError::Empty);
    }
    let question = &peers.descriptor;
    let answer: Result<(), FftError> = question(operation, descriptor);
    assert(peers.descriptor.ensures((operation, descriptor), answer));
    match answer {
        Ok(done) => Ok(done),
        Err(FftError::CollectiveDescriptorMismatch) => Err(CollectionError::HeaderMismatch),
        Err(error) => Err(CollectionError::Descriptor { error }),
    }
}

/// What a member that not all processes could go on with is reported as.
pub open spec fn member_error<E>(index: int, local: Result<(), E>, preflight: bool) -> CollectionError<E> {
    match local {
        Err(error) => CollectionError::Member { index: index as usize, error },
        Ok(_) => if preflight {
            CollectionError::PeerPreflight { index: index as usize }
        } else {
            CollectionError::PeerExecution { index: index as usize }
        },
    }
}

/// Returns what a member comes to once all processes have told whether they could go on.
pub fn member_result<E>(index: usize, local: Result<(), E>, all_valid: bool, preflight: bool) -> (result:
    Result<(), CollectionError<E>>)
    ensures
        match result {
            Ok(_) => all_valid,
            Err(error) => !all_valid && error == member_error(index as int, local, preflight),
        },
{
    if all_valid {
        return Ok(());
    }
    match local {
        Err(error) => Err(CollectionError::Member { index, error }),
        Ok(_) => if preflight {
            Err(CollectionError::PeerPreflight { index })
        } else {
            Err(CollectionError::PeerExecution { index })
        },
    }
}

/// All processes accept the members before `index`.
pub open spec fn members_accepted<E, A: Fn(bool) -> bool>(
    agree: A,
    verdicts: Seq<Result<(), E>>,
    index: int,
) -> bool {
    forall|i: int|
        0 <= i < index ==> agree.ensures(((#[trigger] verdicts[i]) is Ok,), true)
}

/// The first member that not all processes accept.
pub open spec fn member_rejected<E, A: Fn(bool) -> bool>(
    agree: A,
    verdicts: Seq<Result<(), E>>,
    index: int,
) -> bool {
    &&& 0 <= index < verdicts.len()
    &&& members_accepted(agree, verdicts, index)
    &&& agree.ensures((verdicts[index] is Ok,), false)
}

/// Asks whether all processes accept all members.
pub fn check_members<E: Copy, A: Fn(bool) -> bool>(agree: &A, verdicts: &Vec<Result<(), E>>) -> (outcome:
    Result<(), CollectionError<E>>)
    requires
        forall|valid: bool| #[trigger] agree.requires((valid,)),
    ensures
        match outcome {
            Ok(_) => members_accepted(*agree, verdicts@, verdicts@.len() as int),
            Err(error) => exists|index: int| #[trigger]
                member_rejected(*agree, verdicts@, index) && error == member_error(
                    index,
                    verdicts@[index],
                    true,
                ),
        },
{
    let mut index: usize = 0;
    while index < verdicts.len()
        invariant
            index <= verdicts@.len(),
            forall|valid: bool| #[trigger] agree.requires((valid,)),
            members_accepted(*agree, verdicts@, index as int),
        decreases verdicts@.len() - index,
    {
        let local: Result<(), E> = verdicts[index];
        let all_valid: bool = agree(local.is_ok());
        match member_result(index, local, all_valid, true) {
            Ok(_) => {},
            Err(error) => {
                assert(member_rejected(*agree, verdicts@, index as int));
                return Err(error);
            },
        }
        index += 1;
    }
    Ok(())
}

/// Those who execute the members of a collection.
pub trait Members<S, E> {
    /// Members can be executed at all.
    spec fn able(&self) -> bool;

    /// Number of members.
    spec fn count(&self) -> int;

    /// Members can be executed on `state`.
    spec fn fit(&self, state: S) -> bool;

    /// What executing the member `index` comes to.
    spec fn ran(&self, index: int, before: S, after: S, local: Result<(), E>) -> bool;

    /// Executes a member.
    fn execute(&self, index: usize, state: S) -> (result: (S, Result<(), E>))
        requires
            self.able(),
            index < self.count(),
            self.fit(state),
        ensures
            self.fit(result.0),
            self.ran(index as int, state, result.0, result.1),
    ;
}

/// Members out of place: each is executed from its own source into its own array.
pub struct Paired<'a, A, X> {
    /// Where the values come from.
    pub sources: &'a Vec<A>,
    /// Executes one member.
    pub execute: &'a X,
    /// Number of arrays.
    pub arrays: usize,
}

/// Members in place: each is executed in its own array.
pub struct Single<'a, X> {
    /// Executes one member.
    pub execute: &'a X,
    /// Number of arrays.
    pub arrays: usize,
}

/// All arrays but one are as before.
pub open spec fn others_kept<B>(before: Seq<B>, after: Seq<B>, index: int) -> bool {
    &&& after.len() == before.len()
    &&& forall|other: int|
        0 <= other < before.len() && other != index ==> #[trigger] after[other] == before[other]
}

impl<'a, S, B, W, E, X: Fn(usize, &S, B, W) -> ((B, W), Result<(), E>)> Members<(Vec<B>, W), E> for Paired<'a, S, X> {
    open spec fn able(&self) -> bool {
        forall|index: usize, source: &S, array: B, workspace: W| #[trigger]
            self.execute.requires((index, source, array, workspace))
    }

    open spec fn count(&self) -> int {
        if self.sources@.len() < self.arrays {
            self.sources@.len() as int
        } else {
            self.arrays as int
        }
    }

    open spec fn fit(&self, state: (Vec<B>, W)) -> bool {
        state.0@.len() == self.arrays
    }

    open spec fn ran(
        &self,
        index: int,
        before: (Vec<B>, W),
        after: (Vec<B>, W),
        local: Result<(), E>,
    ) -> bool {
        &&& others_kept(before.0@, after.0@, index)
        &&& self.execute.ensures(
            (index as usize, &self.sources@[index], before.0@[index], before.1),
            ((after.0@[index], after.1), local),
        )
    }

    fn execute(&self, index: usize, state: (Vec<B>, W)) -> (result: (
        (Vec<B>, W),
        Result<(), E>,
    )) {
        let (mut arrays, workspace): (Vec<B>, W) = state;
        let array: B = arrays.remove(index);
        let ((array, workspace), local): ((B, W), Result<(), E>) = (self.execute)(
            index,
            &self.sources[index],
            array,
            workspace,
        );
        arrays.insert(index, array);
        ((arrays, workspace), local)
    }
}

impl<'a, B, W, E, X: Fn(usize, B, W) -> ((B, W), Result<(), E>)> Members<(Vec<B>, W), E> for Single<'a, X> {
    open spec fn able(&self) -> bool {
        forall|index: usize, array: B, workspace: W| #[trigger]
            self.execute.requires((index, array, workspace))
    }

    open spec fn count(&self) -> int {
        self.arrays as int
    }

    open spec fn fit(&self, state: (Vec<B>, W)) -> bool {
        state.0@.len() == self.arrays
    }

    open spec fn ran(
        &self,
        index: int,
        before: (Vec<B>, W),
        after: (Vec<B>, W),
        local: Result<(), E>,
    ) -> bool {
        &&& others_kept(before.0@, after.0@, index)
        &&& self.execute.ensures(
            (index as usize, before.0@[index], before.1),
            ((after.0@[index], after.1), local),
        )
    }

    fn execute(&self, index: usize, state: (Vec<B>, W)) -> (result: (
        (Vec<B>, W),
        Result<(), E>,
    )) {
        let (mut arrays, workspace): (Vec<B>, W) = state;
        let array: B = arrays.remove(index);
        let ((array, workspace), local): ((B, W), Result<(), E>) = (self.execute)(
            index,
            array,
            workspace,
        );
        arrays.insert(index, array);
        ((arrays, workspace), local)
    }
}

/// Executing one member leads from one state to the next, and all processes could go on or not.
pub open spec fn member_ran<S, E, A: Fn(bool) -> bool, X: Members<S, E>>(
    agree: A,
    execute: X,
    index: int,
    before: S,
    after: S,
    local: Result<(), E>,
    all_valid: bool,
) -> bool {
    &&& execute.ran(index, before, after, local)
    &&& agree.ensures((local is Ok,), all_valid)
}

/// The members before `index` were executed in order, and all processes could go on.
pub open spec fn members_ran<S, E, A: Fn(bool) -> bool, X: Members<S, E>>(
    agree: A,
    execute: X,
    index: int,
    before: S,
    after: S,
) -> bool
    decreases index,
{
    if index <= 0 {
        after == before
    } else {
        exists|between: S, local: Result<(), E>|
            {
                &&& members_ran::<S, E, A, X>(agree, execute, index - 1, before, between)
                &&& #[trigger] member_ran(agree, execute, index - 1, between, after, local, true)
            }
    }
}

/// The first member that not all processes executed.
pub open spec fn member_failed<S, E, A: Fn(bool) -> bool, X: Members<S, E>>(
    agree: A,
    execute: X,
    count: int,
    before: S,
    after: S,
    error: CollectionError<E>,
) -> bool {
    exists|index: int, between: S, local: Result<(), E>|
        {
            &&& 0 <= index < count
            &&& members_ran::<S, E, A, X>(agree, execute, index, before, between)
            &&& #[trigger] member_ran(agree, execute, index, between, after, local, false)
            &&& error == member_error(index, local, false)
        }
}

/// Executes members in order, until not all processes could go on.
pub fn run_members<S, E, A: Fn(bool) -> bool, X: Members<S, E>>(
    agree: &A,
    execute: &X,
    count: usize,
    state: S,
) -> (result: (S, Result<(), CollectionError<E>>))
    requires
        forall|valid: bool| #[trigger] agree.requires((valid,)),
        execute.able(),
        count <= execute.count(),
        execute.fit(state),
    ensures
        execute.fit(result.0),
        match result.1 {
            Ok(_) => members_ran::<S, E, A, X>(*agree, *execute, count as int, state, result.0),
            Err(error) => member_failed(*agree, *execute, count as int, state, result.0, error),
        },
{
    let ghost before = state;
    let mut current = state;
    let mut index: usize = 0;
    while index < count
        invariant
            index <= count,
            before == state,
            forall|valid: bool| #[trigger] agree.requires((valid,)),
            execute.able(),
            count <= execute.count(),
            execute.fit(current),
            members_ran::<S, E, A, X>(*agree, *execute, index as int, before, current),
        decreases count - index,
    {
        let ghost between = current;
        let (after, local): (S, Result<(), E>) = execute.execute(index, current);
        current = after;
        let all_valid: bool = agree(local.is_ok());
        assert(member_ran(
            *agree,
            *execute,
            index as int,
            between,
            current,
            local,
            all_valid,
        ));
        match member_result(index, local, all_valid, false) {
            Ok(_) => {
                assert(member_ran(
                    *agree,
                    *execute,
                    (index + 1) - 1,
                    between,
                    current,
                    local,
                    true,
                ));
                assert(members_ran::<S, E, A, X>(
                    *agree,
                    *execute,
                    index + 1,
                    before,
                    current,
                ));
            },
            Err(error) => {
                assert(member_failed(
                    *agree,
                    *execute,
                    count as int,
                    before,
                    current,
                    error,
                ));
                return (current, Err(error));
            },
        }
        index += 1;
    }
    (current, Ok(()))
}

/// What an execution over a collection comes to. Unless it starts and all members are accepted,
/// nothing is changed.
pub open spec fn many_done<S, E, H: Fn([u64; 5]) -> bool, D: Fn(u64, &Vec<u64>) -> Result<(), FftError>, A: Fn(bool) -> bool, X: Members<S, E>>(
    peers: Peers<H, D, A>,
    call: ManyCall,
    descriptor: Vec<u64>,
    verdicts: Seq<Result<(), E>>,
    execute: X,
    before: S,
    after: S,
    outcome: Result<(), CollectionError<E>>,
) -> bool {
    ||| {
        &&& outcome is Err
        &&& begun(peers, call, descriptor, outcome)
        &&& after == before
    }
    ||| {
        &&& begun::<E, H, D, A>(peers, call, descriptor, Ok(()))
        &&& after == before
        &&& exists|index: int| #[trigger]
            member_rejected(peers.agree, verdicts, index) && outcome == Err::<
                (),
                CollectionError<E>,
            >(member_error(index, verdicts[index], true))
    }
    ||| {
        &&& begun::<E, H, D, A>(peers, call, descriptor, Ok(()))
        &&& members_accepted(peers.agree, verdicts, verdicts.len() as int)
        &&& match outcome {
            Ok(_) => members_ran::<S, E, A, X>(
                peers.agree,
                execute,
                verdicts.len() as int,
                before,
                after,
            ),
            Err(error) => member_failed(
                peers.agree,
                execute,
                verdicts.len() as int,
                before,
                after,
                error,
            ),
        }
    }
}

/// Executes a plan over a collection, of which `verdicts` tell what this process found wrong with
/// each member.
pub fn run_many<S, E: Copy, H: Fn([u64; 5]) -> bool, D: Fn(u64, &Vec<u64>) -> Result<(), FftError>, A: Fn(bool) -> bool, X: Members<S, E>>(
    peers: &Peers<H, D, A>,
    call: ManyCall,
    descriptor: &Vec<u64>,
    verdicts: &Vec<Result<(), E>>,
    execute: &X,
    state: S,
) -> (result: (S, Result<(), CollectionError<E>>))
    requires
        peers_answer(*peers),
        execute.able(),
        verdicts@.len() <= execute.count(),
        execute.fit(state),
    ensures
        many_done(
            *peers,
            call,
            *descriptor,
            verdicts@,
            *execute,
            state,
            result.0,
            result.1,
        ),
{
    let started: Result<(), CollectionError<E>> = begin(peers, call, descriptor);
    match started {
        Ok(done) => {
            assert(started == Ok::<(), CollectionError<E>>(()));
        },
        Err(error) => {
            return (state, Err(error));
        },
    }
    match check_members(&peers.agree, verdicts) {
        Ok(_) => {},
        Err(error) => {
            return (state, Err(error));
        },
    }
    run_members(&peers.agree, execute, verdicts.len(), state)
}

/// Where each member is executed without touching the parts of the others, the parts of members
/// that were not reached are as before.
pub proof fn law_unreached_members_untouched<S, V, E, A: Fn(bool) -> bool, X: Members<S, E>>(
    agree: A,
    execute: X,
    reached: int,
    before: S,
    after: S,
    part: spec_fn(S, int) -> V,
    member: int,
)
    requires
        members_ran::<S, E, A, X>(agree, execute, reached, before, after),
        member >= reached,
        forall|index: int, from: S, to: S, local: Result<(), E>, other: int|
            #![trigger execute.ran(index, from, to, local), part(to, other)]
            execute.ran(index, from, to, local) && other != index ==> part(to, other)
                == part(from, other),
    ensures
        part(after, member) == part(before, member),
    decreases reached,
{
    if reached > 0 {
        let (between, local) = choose|between: S, local: Result<(), E>|
            {
                &&& members_ran::<S, E, A, X>(agree, execute, reached - 1, before, between)
                &&& #[trigger] member_ran(agree, execute, reached - 1, between, after, local, true)
            };
        law_unreached_members_untouched::<S, V, E, A, X>(
            agree,
            execute,
            reached - 1,
            before,
            between,
            part,
            member,
        );
    }
}

/// Where each member is executed without touching the parts of the others, each member that was
/// reached was executed once, with success, on its part as it was, and what that left of its part is
/// what the whole execution leaves. All processes can go on only where this one can.
pub proof fn law_reached_members_executed<S, V, E, A: Fn(bool) -> bool, X: Members<S, E>>(
    agree: A,
    execute: X,
    reached: int,
    before: S,
    after: S,
    part: spec_fn(S, int) -> V,
    member: usize,
)
    requires
        members_ran::<S, E, A, X>(agree, execute, reached, before, after),
        member < reached,
        !agree.ensures((false,), true),
        forall|index: int, from: S, to: S, local: Result<(), E>, other: int|
            #![trigger execute.ran(index, from, to, local), part(to, other)]
            execute.ran(index, from, to, local) && other != index ==> part(to, other)
                == part(from, other),
    ensures
        exists|from: S, to: S|
            {
                &&& part(from, member as int) == part(before, member as int)
                &&& #[trigger] execute.ran(member as int, from, to, Ok(()))
                &&& part(to, member as int) == part(after, member as int)
            },
    decreases reached,
{
    let (between, local) = choose|between: S, local: Result<(), E>|
        {
            &&& members_ran::<S, E, A, X>(agree, execute, reached - 1, before, between)
            &&& #[trigger] member_ran(agree, execute, reached - 1, between, after, local, true)
        };
    if member == reached - 1 {
        law_unreached_members_untouched::<S, V, E, A, X>(
            agree,
            execute,
            reached - 1,
            before,
            between,
            part,
            member as int,
        );
        match local {
            Ok(done) => {
                assert(local == Ok::<(), E>(()));
                assert(execute.ran(member as int, between, after, Ok(())));
            },
            Err(_) => {},
        }
    } else {
        law_reached_members_executed::<S, V, E, A, X>(
            agree,
            execute,
            reached - 1,
            before,
            between,
            part,
            member,
        );
        assert(part(after, member as int) == part(between, member as int));
    }
}

/// A failure at one member leaves the parts of all later members as they were, where each member
/// is executed without touching the parts of the others.
pub proof fn law_failure_keeps_later_members<S, V, E, A: Fn(bool) -> bool, X: Members<S, E>>(
    agree: A,
    execute: X,
    count: usize,
    before: S,
    after: S,
    error: CollectionError<E>,
    part: spec_fn(S, int) -> V,
)
    requires
        member_failed(agree, execute, count as int, before, after, error),
        forall|index: int, from: S, to: S, local: Result<(), E>, other: int|
            #![trigger execute.ran(index, from, to, local), part(to, other)]
            execute.ran(index, from, to, local) && other != index ==> part(to, other)
                == part(from, other),
    ensures
        exists|index: int| #[trigger]
            fails_at(error, index) && 0 <= index < count && forall|member: int|
                member > index ==> #[trigger] part(after, member) == part(before, member),
{
    let (index, between, local) = choose|index: int, between: S, local: Result<(), E>|
        {
            &&& 0 <= index < count
            &&& members_ran::<S, E, A, X>(agree, execute, index, before, between)
            &&& #[trigger] member_ran(agree, execute, index, between, after, local, false)
            &&& error == member_error(index, local, false)
        };
    assert(fails_at(error, index));
    assert forall|member: int| member > index implies #[trigger] part(after, member) == part(
        before,
        member,
    ) by {
        law_unreached_members_untouched::<S, V, E, A, X>(
            agree,
            execute,
            index,
            before,
            between,
            part,
            member,
        );
    }
}

/// The member was executed with success, from its own source into its own array.
pub open spec fn pair_done<S, B, W, E, X: Fn(usize, &S, B, W) -> ((B, W), Result<(), E>)>(
    execute: Paired<S, X>,
    member: int,
    before: B,
    after: B,
) -> bool {
    exists|given: W, left: W| #[trigger]
        execute.execute.ensures(
            (member as usize, &execute.sources@[member], before, given),
            ((after, left), Ok(())),
        )
}

/// A collection out of place that was executed up to some member: each member before it was executed
/// once, with success, from its own source into its own array as it was, and the other arrays are as
/// they were. All processes can go on only where this one can.
pub proof fn law_pairs_executed<S, B, W, E, A: Fn(bool) -> bool, X: Fn(usize, &S, B, W) -> ((B, W), Result<(), E>)>(
    agree: A,
    execute: Paired<S, X>,
    reached: int,
    before: (Vec<B>, W),
    after: (Vec<B>, W),
)
    requires
        members_ran::<(Vec<B>, W), E, A, Paired<S, X>>(agree, execute, reached, before, after),
        0 <= reached <= execute.count(),
        execute.fit(before),
        !agree.ensures((false,), true),
    ensures
        after.0@.len() == before.0@.len(),
        forall|member: int|
            reached <= member < before.0@.len() ==> #[trigger] after.0@[member]
                == before.0@[member],
        forall|member: int|
            0 <= member < reached ==> #[trigger] pair_done::<S, B, W, E, X>(
                execute,
                member,
                before.0@[member],
                after.0@[member],
            ),
    decreases reached,
{
    if reached > 0 {
        let (between, local) = choose|between: (Vec<B>, W), local: Result<(), E>|
            {
                &&& members_ran::<(Vec<B>, W), E, A, Paired<S, X>>(
                    agree,
                    execute,
                    reached - 1,
                    before,
                    between,
                )
                &&& #[trigger] member_ran(agree, execute, reached - 1, between, after, local, true)
            };
        law_pairs_executed::<S, B, W, E, A, X>(agree, execute, reached - 1, before, between);
        match local {
            Ok(done) => {
                assert(local == Ok::<(), E>(()));
            },
            Err(_) => {},
        }
        assert forall|member: int| 0 <= member < reached implies #[trigger] pair_done::<S, B, W, E, X>(
            execute,
            member,
            before.0@[member],
            after.0@[member],
        ) by {
            if member < reached - 1 {
                assert(after.0@[member] == between.0@[member]);
                assert(pair_done::<S, B, W, E, X>(
                    execute,
                    member,
                    before.0@[member],
                    between.0@[member],
                ));
            } else {
                assert(execute.execute.ensures(
                    (member as usize, &execute.sources@[member], before.0@[member], between.1),
                    ((after.0@[member], after.1), Ok(())),
                ));
            }
        }
    }
}

/// The error names this member.
pub open spec fn fails_at<E>(error: CollectionError<E>, index: int) -> bool {
    match error {
        CollectionError::Member { index: named, .. } => named == index,
        CollectionError::PeerPreflight { index: named } => named == index,
        CollectionError::PeerExecution { index: named } => named == index,
        _ => false,
    }
}

} // verus!
