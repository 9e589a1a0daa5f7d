//! An execution over a collection executes every member, or changes nothing.

use vstd::prelude::*;

use crate::array::PencilArray;
use crate::collections::law_pairs_executed;
use crate::collections::many_done;
use crate::collections::member_ran;
use crate::collections::members_ran;
use crate::collections::pair_done;
use crate::collections::ManyCall;
use crate::collections::Members;
use crate::collections::Paired;
use crate::collections::Peers;
use crate::collections::Single;
use crate::error::CollectionError;
use crate::error::FftError;
use crate::error::MixedError;
use crate::error::R2cError;
use crate::error::R2rError;
use crate::many::mixed_c2c_in_place_verdicts;
use crate::many::mixed_c2c_verdicts;
use crate::many::mixed_r2c_all_judged;
use crate::many::mixed_r2c_verdicts;
use crate::many::r2c_all_judged;
use crate::many::r2c_verdicts;
use crate::many::r2r_in_place_verdicts;
use crate::many::r2r_verdicts;
use crate::mixed_c2c::mixed_c2c_error;
use crate::mixed_c2c::mixed_c2c_in_place_error;
use crate::mixed_c2c::MixedC2cCore;
use crate::mixed_c2c::MixedC2cInPlaceArray;
use crate::mixed_c2c::MixedC2cInPlaceWorkspace;
use crate::mixed_c2c::MixedC2cWorkspace;
use crate::mixed_r2c::mixed_r2c_error;
use crate::mixed_r2c::MixedR2cCore;
use crate::mixed_r2c::MixedR2cInPlaceArray;
use crate::mixed_r2c::MixedR2cInPlaceWorkspace;
use crate::mixed_r2c::MixedR2cWorkspace;
use crate::r2c::r2c_out_of_place_error;
use crate::r2c::R2cInPlaceArray;
use crate::r2c::R2cInPlaceWorkspace;
use crate::r2c::R2cWorkspace;
use crate::r2c::TransformPlanCore;
use crate::r2r::r2r_in_place_error;
use crate::r2r::r2r_out_of_place_error;
use crate::r2r::R2rCore;
use crate::r2r::R2rInPlaceArray;
use crate::r2r::R2rInPlaceWorkspace;
use crate::r2r::R2rWorkspace;
use crate::scalar::Complex;
use crate::scalar::FftReal;
use crate::scalar::R2rScalar;
use crate::words::law_operation_words_unique;

verus! {

/// Where a member of a collection was found wrong, nothing is executed and nothing is changed,
/// wherever it stands in the collection. All processes can go on only where this one can.
pub proof fn law_wrong_member_keeps_all<S, E, H: Fn([u64; 5]) -> bool, D: Fn(u64, &Vec<u64>) -> Result<(), FftError>, A: Fn(bool) -> bool, X: Members<S, E>>(
    peers: Peers<H, D, A>,
    call: ManyCall,
    descriptor: Vec<u64>,
    verdicts: Seq<Result<(), E>>,
    execute: X,
    before: S,
    after: S,
    outcome: Result<(), CollectionError<E>>,
    member: int,
)
    requires
        many_done(peers, call, descriptor, verdicts, execute, before, after, outcome),
        !peers.agree.ensures((false,), true),
        0 <= member < verdicts.len(),
        verdicts[member] is Err,
    ensures
        outcome is Err,
        after == before,
{
}

/// Executions over collections that differ in the plan, the way, the place or the number of members
/// are told apart by their headers.
pub proof fn law_many_headers_unique(left: ManyCall, right: ManyCall)
    requires
        left.header() == right.header(),
    ensures
        left == right,
{
    assert(left.header()[1] == right.header()[1]);
    assert(left.header()[2] == right.header()[2]);
    assert(left.header()[3] == right.header()[3]);
    assert(left.header()[4] == right.header()[4]);
    law_operation_words_unique(left.operation(), right.operation());
}

/// An execution over no member, or over other numbers of sources and destinations, is refused and
/// changes nothing.
pub proof fn law_counts_refused<S, E, H: Fn([u64; 5]) -> bool, D: Fn(u64, &Vec<u64>) -> Result<(), FftError>, A: Fn(bool) -> bool, X: Members<S, E>>(
    peers: Peers<H, D, A>,
    call: ManyCall,
    descriptor: Vec<u64>,
    verdicts: Seq<Result<(), E>>,
    execute: X,
    before: S,
    after: S,
    outcome: Result<(), CollectionError<E>>,
)
    requires
        many_done(peers, call, descriptor, verdicts, execute, before, after, outcome),
        call.sources != call.destinations || call.sources == 0,
    ensures
        outcome is Err,
        after == before,
{
}

/// A collection in place that was executed up to some member: each member before it was executed
/// once, with success, in its own array as it was, and the other arrays are as they were. All
/// processes can go on only where this one can.
pub proof fn law_singles_executed<B, W, E, A: Fn(bool) -> bool, X: Fn(usize, B, W) -> ((B, W), Result<(), E>)>(
    agree: A,
    execute: Single<X>,
    reached: int,
    before: (Vec<B>, W),
    after: (Vec<B>, W),
)
    requires
        members_ran::<(Vec<B>, W), E, A, Single<X>>(agree, execute, reached, before, after),
        0 <= reached <= before.0@.len(),
        !agree.ensures((false,), true),
    ensures
        after.0@.len() == before.0@.len(),
        forall|member: int|
            reached <= member < before.0@.len() ==> #[trigger] after.0@[member]
                == before.0@[member],
        forall|member: int|
            0 <= member < reached ==> #[trigger] single_done::<B, W, E, X>(
                *execute.execute,
                member,
                before.0@[member],
                after.0@[member],
            ),
    decreases reached,
{
    if reached > 0 {
        let (between, local) = choose|between: (Vec<B>, W), local: Result<(), E>|
            {
                &&& members_ran::<(Vec<B>, W), E, A, Single<X>>(
                    agree,
                    execute,
                    reached - 1,
                    before,
                    between,
                )
                &&& #[trigger] member_ran(agree, execute, reached - 1, between, after, local, true)
            };
        law_singles_executed::<B, W, E, A, X>(agree, execute, reached - 1, before, between);
        match local {
            Ok(done) => {
                assert(local == Ok::<(), E>(()));
            },
            Err(_) => {},
        }
        assert forall|member: int| 0 <= member < reached implies #[trigger] single_done::<B, W, E, X>(
            *execute.execute,
            member,
            before.0@[member],
            after.0@[member],
        ) by {
            if member < reached - 1 {
                assert(after.0@[member] == between.0@[member]);
                assert(single_done::<B, W, E, X>(
                    *execute.execute,
                    member,
                    before.0@[member],
                    between.0@[member],
                ));
            } else {
                assert(execute.execute.ensures(
                    (member as usize, before.0@[member], between.1),
                    ((after.0@[member], after.1), Ok(())),
                ));
            }
        }
    }
}

/// The member was executed with success in its own array.
pub open spec fn single_done<B, W, E, X: Fn(usize, B, W) -> ((B, W), Result<(), E>)>(
    execute: X,
    member: int,
    before: B,
    after: B,
) -> bool {
    exists|given: W, left: W| #[trigger]
        execute.ensures((member as usize, before, given), ((after, left), Ok(())))
}

/// The member was executed with success from a source into an array.
pub open spec fn copy_done<S, B, W, E, X: Fn(usize, &S, B, W) -> ((B, W), Result<(), E>)>(
    execute: X,
    member: int,
    source: S,
    before: B,
    after: B,
) -> bool {
    exists|given: W, left: W| #[trigger]
        execute.ensures((member as usize, &source, before, given), ((after, left), Ok(())))
}

proof fn lemma_all_pairs<S, B, W, E, H: Fn([u64; 5]) -> bool, D: Fn(u64, &Vec<u64>) -> Result<(), FftError>, A: Fn(bool) -> bool, X: Fn(usize, &S, B, W) -> ((B, W), Result<(), E>)>(
    peers: Peers<H, D, A>,
    call: ManyCall,
    descriptor: Vec<u64>,
    verdicts: Seq<Result<(), E>>,
    execute: Paired<S, X>,
    before: (Vec<B>, W),
    after: (Vec<B>, W),
    outcome: Result<(), CollectionError<E>>,
)
    requires
        many_done(peers, call, descriptor, verdicts, execute, before, after, outcome),
        outcome is Ok,
        !peers.agree.ensures((false,), true),
        call.sources == execute.sources@.len(),
        call.destinations == before.0@.len(),
        execute.arrays == before.0@.len(),
        verdicts.len() == execute.sources@.len(),
    ensures
        execute.sources@.len() == before.0@.len(),
        execute.sources@.len() > 0,
        after.0@.len() == before.0@.len(),
        forall|member: int| 0 <= member < verdicts.len() ==> (#[trigger] verdicts[member]) is Ok,
        forall|member: int|
            0 <= member < execute.sources@.len() ==> #[trigger] copy_done::<S, B, W, E, X>(
                *execute.execute,
                member,
                execute.sources@[member],
                before.0@[member],
                after.0@[member],
            ),
{
    law_pairs_executed::<S, B, W, E, A, X>(peers.agree, execute, verdicts.len() as int, before, after);
    assert forall|member: int| 0 <= member < execute.sources@.len() implies #[trigger] copy_done::<S, B, W, E, X>(
        *execute.execute,
        member,
        execute.sources@[member],
        before.0@[member],
        after.0@[member],
    ) by {
        assert(pair_done::<S, B, W, E, X>(
            execute,
            member,
            before.0@[member],
            after.0@[member],
        ));
        let (given, left) = choose|given: W, left: W| #[trigger]
            execute.execute.ensures(
                (member as usize, &execute.sources@[member], before.0@[member], given),
                ((after.0@[member], left), Ok(())),
            );
        assert(execute.execute.ensures(
            (member as usize, &execute.sources@[member], before.0@[member], given),
            ((after.0@[member], left), Ok(())),
        ));
    }
}

proof fn lemma_all_singles<B, W, E, H: Fn([u64; 5]) -> bool, D: Fn(u64, &Vec<u64>) -> Result<(), FftError>, A: Fn(bool) -> bool, X: Fn(usize, B, W) -> ((B, W), Result<(), E>)>(
    peers: Peers<H, D, A>,
    call: ManyCall,
    descriptor: Vec<u64>,
    verdicts: Seq<Result<(), E>>,
    execute: Single<X>,
    before: (Vec<B>, W),
    after: (Vec<B>, W),
    outcome: Result<(), CollectionError<E>>,
)
    requires
        many_done(peers, call, descriptor, verdicts, execute, before, after, outcome),
        outcome is Ok,
        !peers.agree.ensures((false,), true),
        call.sources == before.0@.len(),
        verdicts.len() == before.0@.len(),
    ensures
        before.0@.len() > 0,
        after.0@.len() == before.0@.len(),
        forall|member: int| 0 <= member < verdicts.len() ==> (#[trigger] verdicts[member]) is Ok,
        forall|member: int|
            0 <= member < before.0@.len() ==> #[trigger] single_done::<B, W, E, X>(
                *execute.execute,
                member,
                before.0@[member],
                after.0@[member],
            ),
{
    law_singles_executed::<B, W, E, A, X>(peers.agree, execute, verdicts.len() as int, before, after);
}

/// Where an execution of a real-to-real or Hartley plan over a collection succeeds, there are
/// as many destinations as sources, every pair of them was accepted, and every source was
/// executed once, with success, into its own destination: what that left is what stands there
/// now. All processes can go on only where this one can.
pub proof fn law_r2r_many_executes_all<T: R2rScalar, H: Fn([u64; 5]) -> bool, D: Fn(u64, &Vec<u64>) -> Result<(), FftError>, A: Fn(bool) -> bool, X: Fn(usize, &PencilArray<T, N, M>, PencilArray<T, N, M>, R2rWorkspace<T, N, M>) -> ((PencilArray<T, N, M>, R2rWorkspace<T, N, M>), Result<(), R2rError>), const N: usize, const M: usize>(
    peers: Peers<H, D, A>,
    call: ManyCall,
    core: R2rCore<N, M>,
    sources: &Vec<PencilArray<T, N, M>>,
    execute: &X,
    before: (Vec<PencilArray<T, N, M>>, R2rWorkspace<T, N, M>),
    after: (Vec<PencilArray<T, N, M>>, R2rWorkspace<T, N, M>),
    outcome: Result<(), CollectionError<R2rError>>,
)
    requires
        many_done(
            peers,
            call,
            core.descriptor,
            r2r_verdicts(core, call.direction, sources@, before.0@, before.1),
            (Paired { sources, execute, arrays: before.0.len() }),
            before,
            after,
            outcome,
        ),
        call.sources == sources@.len(),
        call.destinations == before.0@.len(),
        outcome is Ok,
        !peers.agree.ensures((false,), true),
    ensures
        sources@.len() == before.0@.len(),
        sources@.len() > 0,
        after.0@.len() == before.0@.len(),
        forall|member: int|
            #![trigger sources@[member]]
            0 <= member < sources@.len() ==> r2r_out_of_place_error(
                core,
                call.direction,
                sources@[member],
                before.0@[member],
                before.1,
            ) is None,
        forall|member: int|
            0 <= member < sources@.len() ==> #[trigger] copy_done::<PencilArray<T, N, M>, PencilArray<T, N, M>, R2rWorkspace<T, N, M>, R2rError, X>(
                *execute,
                member,
                sources@[member],
                before.0@[member],
                after.0@[member],
            ),
{
    let verdicts = r2r_verdicts(core, call.direction, sources@, before.0@, before.1);
    assert(verdicts.len() == sources@.len());
    lemma_all_pairs(
        peers,
        call,
        core.descriptor,
        verdicts,
        Paired { sources, execute, arrays: before.0.len() },
        before,
        after,
        outcome,
    );
    assert forall|member: int|
        #![trigger sources@[member]]
        0 <= member < sources@.len() implies r2r_out_of_place_error(
        core,
        call.direction,
        sources@[member],
        before.0@[member],
        before.1,
    ) is None by {
        assert(verdicts[member] is Ok);
    }
}

/// Where an execution of a real-to-real or Hartley plan over a collection in place succeeds,
/// every array was executed once, with success: what that left is what stands there now. All
/// processes can go on only where this one can.
pub proof fn law_r2r_many_in_place_executes_all<T: R2rScalar, H: Fn([u64; 5]) -> bool, D: Fn(u64, &Vec<u64>) -> Result<(), FftError>, A: Fn(bool) -> bool, X: Fn(usize, R2rInPlaceArray<T, N, M>, R2rInPlaceWorkspace<T, N, M>) -> ((R2rInPlaceArray<T, N, M>, R2rInPlaceWorkspace<T, N, M>), Result<(), R2rError>), const N: usize, const M: usize>(
    peers: Peers<H, D, A>,
    call: ManyCall,
    core: R2rCore<N, M>,
    execute: &X,
    before: (Vec<R2rInPlaceArray<T, N, M>>, R2rInPlaceWorkspace<T, N, M>),
    after: (Vec<R2rInPlaceArray<T, N, M>>, R2rInPlaceWorkspace<T, N, M>),
    outcome: Result<(), CollectionError<R2rError>>,
)
    requires
        many_done(
            peers,
            call,
            core.descriptor,
            r2r_in_place_verdicts(core, call.direction, before.0@, before.1),
            (Single { execute, arrays: before.0.len() }),
            before,
            after,
            outcome,
        ),
        call.sources == before.0@.len(),
        outcome is Ok,
        !peers.agree.ensures((false,), true),
    ensures
        before.0@.len() > 0,
        after.0@.len() == before.0@.len(),
        forall|member: int|
            0 <= member < before.0@.len() ==> #[trigger] single_done::<R2rInPlaceArray<T, N, M>, R2rInPlaceWorkspace<T, N, M>, R2rError, X>(
                *execute,
                member,
                before.0@[member],
                after.0@[member],
            ),
        forall|member: int|
            #![trigger before.0@[member]]
            0 <= member < before.0@.len() ==> r2r_in_place_error(core, call.direction, before.0@[member], before.1)
                is None,
{
    let verdicts = r2r_in_place_verdicts(core, call.direction, before.0@, before.1);
    assert(verdicts.len() == before.0@.len());
    lemma_all_singles(
        peers,
        call,
        core.descriptor,
        verdicts,
        Single { execute, arrays: before.0.len() },
        before,
        after,
        outcome,
    );
    assert forall|member: int|
        #![trigger before.0@[member]]
        0 <= member < before.0@.len() implies r2r_in_place_error(core, call.direction, before.0@[member], before.1) is None by {
        assert(verdicts[member] is Ok);
    }
}

/// Where an execution of a mixed complex plan over a collection succeeds, there are as many
/// destinations as sources, every pair of them was accepted, and every source was executed
/// once, with success, into its own destination: what that left is what stands there now. All
/// processes can go on only where this one can.
pub proof fn law_mixed_c2c_many_executes_all<R: FftReal, H: Fn([u64; 5]) -> bool, D: Fn(u64, &Vec<u64>) -> Result<(), FftError>, A: Fn(bool) -> bool, X: Fn(usize, &PencilArray<Complex<R>, N, M>, PencilArray<Complex<R>, N, M>, MixedC2cWorkspace<R, N, M>) -> ((PencilArray<Complex<R>, N, M>, MixedC2cWorkspace<R, N, M>), Result<(), MixedError>), const N: usize, const M: usize>(
    peers: Peers<H, D, A>,
    call: ManyCall,
    core: MixedC2cCore<N, M>,
    sources: &Vec<PencilArray<Complex<R>, N, M>>,
    execute: &X,
    before: (Vec<PencilArray<Complex<R>, N, M>>, MixedC2cWorkspace<R, N, M>),
    after: (Vec<PencilArray<Complex<R>, N, M>>, MixedC2cWorkspace<R, N, M>),
    outcome: Result<(), CollectionError<MixedError>>,
)
    requires
        many_done(
            peers,
            call,
            core.descriptor,
            mixed_c2c_verdicts(core, call.direction, sources@, before.0@, before.1),
            (Paired { sources, execute, arrays: before.0.len() }),
            before,
            after,
            outcome,
        ),
        call.sources == sources@.len(),
        call.destinations == before.0@.len(),
        outcome is Ok,
        !peers.agree.ensures((false,), true),
    ensures
        sources@.len() == before.0@.len(),
        sources@.len() > 0,
        after.0@.len() == before.0@.len(),
        forall|member: int|
            #![trigger sources@[member]]
            0 <= member < sources@.len() ==> mixed_c2c_error(
                core,
                call.direction,
                sources@[member],
                before.0@[member],
                before.1,
            ) is None,
        forall|member: int|
            0 <= member < sources@.len() ==> #[trigger] copy_done::<PencilArray<Complex<R>, N, M>, PencilArray<Complex<R>, N, M>, MixedC2cWorkspace<R, N, M>, MixedError, X>(
                *execute,
                member,
                sources@[member],
                before.0@[member],
                after.0@[member],
            ),
{
    let verdicts = mixed_c2c_verdicts(core, call.direction, sources@, before.0@, before.1);
    assert(verdicts.len() == sources@.len());
    lemma_all_pairs(
        peers,
        call,
        core.descriptor,
        verdicts,
        Paired { sources, execute, arrays: before.0.len() },
        before,
        after,
        outcome,
    );
    assert forall|member: int|
        #![trigger sources@[member]]
        0 <= member < sources@.len() implies mixed_c2c_error(
        core,
        call.direction,
        sources@[member],
        before.0@[member],
        before.1,
    ) is None by {
        assert(verdicts[member] is Ok);
    }
}

/// Where an execution of a mixed complex plan over a collection in place succeeds, every array
/// was executed once, with success: what that left is what stands there now. All processes can
/// go on only where this one can.
pub proof fn law_mixed_c2c_many_in_place_executes_all<R: FftReal, H: Fn([u64; 5]) -> bool, D: Fn(u64, &Vec<u64>) -> Result<(), FftError>, A: Fn(bool) -> bool, X: Fn(usize, MixedC2cInPlaceArray<R, N, M>, MixedC2cInPlaceWorkspace<R, N, M>) -> ((MixedC2cInPlaceArray<R, N, M>, MixedC2cInPlaceWorkspace<R, N, M>), Result<(), MixedError>), const N: usize, const M: usize>(
    peers: Peers<H, D, A>,
    call: ManyCall,
    core: MixedC2cCore<N, M>,
    execute: &X,
    before: (Vec<MixedC2cInPlaceArray<R, N, M>>, MixedC2cInPlaceWorkspace<R, N, M>),
    after: (Vec<MixedC2cInPlaceArray<R, N, M>>, MixedC2cInPlaceWorkspace<R, N, M>),
    outcome: Result<(), CollectionError<MixedError>>,
)
    requires
        many_done(
            peers,
            call,
            core.descriptor,
            mixed_c2c_in_place_verdicts(core, call.direction, before.0@, before.1),
            (Single { execute, arrays: before.0.len() }),
            before,
            after,
            outcome,
        ),
        call.sources == before.0@.len(),
        outcome is Ok,
        !peers.agree.ensures((false,), true),
    ensures
        before.0@.len() > 0,
        after.0@.len() == before.0@.len(),
        forall|member: int|
            0 <= member < before.0@.len() ==> #[trigger] single_done::<MixedC2cInPlaceArray<R, N, M>, MixedC2cInPlaceWorkspace<R, N, M>, MixedError, X>(
                *execute,
                member,
                before.0@[member],
                after.0@[member],
            ),
        forall|member: int|
            #![trigger before.0@[member]]
            0 <= member < before.0@.len() ==> mixed_c2c_in_place_error(core, call.direction, before.0@[member], before.1)
                is None,
{
    let verdicts = mixed_c2c_in_place_verdicts(core, call.direction, before.0@, before.1);
    assert(verdicts.len() == before.0@.len());
    lemma_all_singles(
        peers,
        call,
        core.descriptor,
        verdicts,
        Single { execute, arrays: before.0.len() },
        before,
        after,
        outcome,
    );
    assert forall|member: int|
        #![trigger before.0@[member]]
        0 <= member < before.0@.len() implies mixed_c2c_in_place_error(core, call.direction, before.0@[member], before.1) is None by {
        assert(verdicts[member] is Ok);
    }
}

/// Where an execution of a real-to-complex plan over a collection succeeds, there are as many
/// destinations as sources, every pair of them was accepted, and every source was executed
/// once, with success, into its own destination: what that left is what stands there now. All
/// processes can go on only where this one can.
pub proof fn law_r2c_many_executes_all<R: FftReal, S, U, H: Fn([u64; 5]) -> bool, D: Fn(u64, &Vec<u64>) -> Result<(), FftError>, A: Fn(bool) -> bool, X: Fn(usize, &PencilArray<S, N, M>, PencilArray<U, N, M>, R2cWorkspace<R, N, M>) -> ((PencilArray<U, N, M>, R2cWorkspace<R, N, M>), Result<(), R2cError>), const N: usize, const M: usize>(
    peers: Peers<H, D, A>,
    call: ManyCall,
    core: TransformPlanCore<N, M>,
    sources: &Vec<PencilArray<S, N, M>>,
    execute: &X,
    before: (Vec<PencilArray<U, N, M>>, R2cWorkspace<R, N, M>),
    after: (Vec<PencilArray<U, N, M>>, R2cWorkspace<R, N, M>),
    outcome: Result<(), CollectionError<R2cError>>,
)
    requires
        many_done(
            peers,
            call,
            core.descriptor,
            r2c_verdicts(core, call.direction, sources@, before.0@, before.1),
            (Paired { sources, execute, arrays: before.0.len() }),
            before,
            after,
            outcome,
        ),
        call.sources == sources@.len(),
        call.destinations == before.0@.len(),
        outcome is Ok,
        !peers.agree.ensures((false,), true),
    ensures
        sources@.len() == before.0@.len(),
        sources@.len() > 0,
        after.0@.len() == before.0@.len(),
        forall|member: int|
            #![trigger sources@[member]]
            0 <= member < sources@.len() ==> r2c_out_of_place_error(
                core,
                call.direction,
                sources@[member],
                before.0@[member],
                before.1,
            ) is None,
        forall|member: int|
            0 <= member < sources@.len() ==> #[trigger] copy_done::<PencilArray<S, N, M>, PencilArray<U, N, M>, R2cWorkspace<R, N, M>, R2cError, X>(
                *execute,
                member,
                sources@[member],
                before.0@[member],
                after.0@[member],
            ),
{
    let verdicts = r2c_verdicts(core, call.direction, sources@, before.0@, before.1);
    assert(verdicts.len() == sources@.len());
    lemma_all_pairs(
        peers,
        call,
        core.descriptor,
        verdicts,
        Paired { sources, execute, arrays: before.0.len() },
        before,
        after,
        outcome,
    );
    assert forall|member: int|
        #![trigger sources@[member]]
        0 <= member < sources@.len() implies r2c_out_of_place_error(
        core,
        call.direction,
        sources@[member],
        before.0@[member],
        before.1,
    ) is None by {
        assert(verdicts[member] is Ok);
    }
}

/// Where an execution of a real-to-complex plan over a collection in place succeeds, every
/// array was executed once, with success: what that left is what stands there now. All
/// processes can go on only where this one can.
pub proof fn law_r2c_many_in_place_executes_all<R: FftReal, H: Fn([u64; 5]) -> bool, D: Fn(u64, &Vec<u64>) -> Result<(), FftError>, A: Fn(bool) -> bool, X: Fn(usize, R2cInPlaceArray<R, N, M>, R2cInPlaceWorkspace<R, N, M>) -> ((R2cInPlaceArray<R, N, M>, R2cInPlaceWorkspace<R, N, M>), Result<(), R2cError>), const N: usize, const M: usize>(
    peers: Peers<H, D, A>,
    call: ManyCall,
    core: TransformPlanCore<N, M>,
    found: Seq<Result<(), R2cError>>,
    execute: &X,
    before: (Vec<R2cInPlaceArray<R, N, M>>, R2cInPlaceWorkspace<R, N, M>),
    after: (Vec<R2cInPlaceArray<R, N, M>>, R2cInPlaceWorkspace<R, N, M>),
    outcome: Result<(), CollectionError<R2cError>>,
)
    requires
        r2c_all_judged(core, call.direction, before.0@, before.1, found),
        many_done(
            peers,
            call,
            core.descriptor,
            found,
            (Single { execute, arrays: before.0.len() }),
            before,
            after,
            outcome,
        ),
        call.sources == before.0@.len(),
        outcome is Ok,
        !peers.agree.ensures((false,), true),
    ensures
        before.0@.len() > 0,
        after.0@.len() == before.0@.len(),
        forall|member: int|
            0 <= member < before.0@.len() ==> #[trigger] single_done::<R2cInPlaceArray<R, N, M>, R2cInPlaceWorkspace<R, N, M>, R2cError, X>(
                *execute,
                member,
                before.0@[member],
                after.0@[member],
            ),
        forall|member: int| 0 <= member < found.len() ==> (#[trigger] found[member]) is Ok,
{
    let verdicts = found;
    assert(verdicts.len() == before.0@.len());
    lemma_all_singles(
        peers,
        call,
        core.descriptor,
        verdicts,
        Single { execute, arrays: before.0.len() },
        before,
        after,
        outcome,
    );
}

/// Where an execution of a mixed real-to-complex plan over a collection succeeds, there are as
/// many destinations as sources, every pair of them was accepted, and every source was executed
/// once, with success, into its own destination: what that left is what stands there now. All
/// processes can go on only where this one can.
pub proof fn law_mixed_r2c_many_executes_all<R: FftReal, S, U, H: Fn([u64; 5]) -> bool, D: Fn(u64, &Vec<u64>) -> Result<(), FftError>, A: Fn(bool) -> bool, X: Fn(usize, &PencilArray<S, N, M>, PencilArray<U, N, M>, MixedR2cWorkspace<R, N, M>) -> ((PencilArray<U, N, M>, MixedR2cWorkspace<R, N, M>), Result<(), MixedError>), const N: usize, const M: usize>(
    peers: Peers<H, D, A>,
    call: ManyCall,
    core: MixedR2cCore<N, M>,
    sources: &Vec<PencilArray<S, N, M>>,
    execute: &X,
    before: (Vec<PencilArray<U, N, M>>, MixedR2cWorkspace<R, N, M>),
    after: (Vec<PencilArray<U, N, M>>, MixedR2cWorkspace<R, N, M>),
    outcome: Result<(), CollectionError<MixedError>>,
)
    requires
        many_done(
            peers,
            call,
            core.descriptor,
            mixed_r2c_verdicts(core, call.direction, sources@, before.0@, before.1),
            (Paired { sources, execute, arrays: before.0.len() }),
            before,
            after,
            outcome,
        ),
        call.sources == sources@.len(),
        call.destinations == before.0@.len(),
        outcome is Ok,
        !peers.agree.ensures((false,), true),
    ensures
        sources@.len() == before.0@.len(),
        sources@.len() > 0,
        after.0@.len() == before.0@.len(),
        forall|member: int|
            #![trigger sources@[member]]
            0 <= member < sources@.len() ==> mixed_r2c_error(
                core,
                call.direction,
                sources@[member],
                before.0@[member],
                before.1,
            ) is None,
        forall|member: int|
            0 <= member < sources@.len() ==> #[trigger] copy_done::<PencilArray<S, N, M>, PencilArray<U, N, M>, MixedR2cWorkspace<R, N, M>, MixedError, X>(
                *execute,
                member,
                sources@[member],
                before.0@[member],
                after.0@[member],
            ),
{
    let verdicts = mixed_r2c_verdicts(core, call.direction, sources@, before.0@, before.1);
    assert(verdicts.len() == sources@.len());
    lemma_all_pairs(
        peers,
        call,
        core.descriptor,
        verdicts,
        Paired { sources, execute, arrays: before.0.len() },
        before,
        after,
        outcome,
    );
    assert forall|member: int|
        #![trigger sources@[member]]
        0 <= member < sources@.len() implies mixed_r2c_error(
        core,
        call.direction,
        sources@[member],
        before.0@[member],
        before.1,
    ) is None by {
        assert(verdicts[member] is Ok);
    }
}

/// Where an execution of a mixed real-to-complex plan over a collection in place succeeds,
/// every array was executed once, with success: what that left is what stands there now. All
/// processes can go on only where this one can.
pub proof fn law_mixed_r2c_many_in_place_executes_all<R: FftReal, H: Fn([u64; 5]) -> bool, D: Fn(u64, &Vec<u64>) -> Result<(), FftError>, A: Fn(bool) -> bool, X: Fn(usize, MixedR2cInPlaceArray<R, N, M>, MixedR2cInPlaceWorkspace<R, N, M>) -> ((MixedR2cInPlaceArray<R, N, M>, MixedR2cInPlaceWorkspace<R, N, M>), Result<(), MixedError>), const N: usize, const M: usize>(
    peers: Peers<H, D, A>,
    call: ManyCall,
    core: MixedR2cCore<N, M>,
    found: Seq<Result<(), MixedError>>,
    execute: &X,
    before: (Vec<MixedR2cInPlaceArray<R, N, M>>, MixedR2cInPlaceWorkspace<R, N, M>),
    after: (Vec<MixedR2cInPlaceArray<R, N, M>>, MixedR2cInPlaceWorkspace<R, N, M>),
    outcome: Result<(), CollectionError<MixedError>>,
)
    requires
        mixed_r2c_all_judged(core, call.direction, before.0@, before.1, found),
        many_done(
            peers,
            call,
            core.descriptor,
            found,
            (Single { execute, arrays: before.0.len() }),
            before,
            after,
            outcome,
        ),
        call.sources == before.0@.len(),
        outcome is Ok,
        !peers.agree.ensures((false,), true),
    ensures
        before.0@.len() > 0,
        after.0@.len() == before.0@.len(),
        forall|member: int|
            0 <= member < before.0@.len() ==> #[trigger] single_done::<MixedR2cInPlaceArray<R, N, M>, MixedR2cInPlaceWorkspace<R, N, M>, MixedError, X>(
                *execute,
                member,
                before.0@[member],
                after.0@[member],
            ),
        forall|member: int| 0 <= member < found.len() ==> (#[trigger] found[member]) is Ok,
{
    let verdicts = found;
    assert(verdicts.len() == before.0@.len());
    lemma_all_singles(
        peers,
        call,
        core.descriptor,
        verdicts,
        Single { execute, arrays: before.0.len() },
        before,
        after,
        outcome,
    );
}

} // verus!
