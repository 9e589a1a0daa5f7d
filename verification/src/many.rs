//! Executions of each kind of plan over a collection.

use vstd::prelude::*;

use crate::array::PencilArray;
use crate::collections::many_done;
use crate::collections::peers_answer;
use crate::collections::run_many;
use crate::collections::ManyCall;
use crate::collections::Paired;
use crate::collections::Peers;
use crate::collections::Single;
use crate::dht_plan::DhtPlan;
use crate::error::CollectionError;
use crate::error::FftError;
use crate::error::MixedError;
use crate::error::R2cError;
use crate::error::R2rError;
use crate::layout::Direction;
use crate::mixed_c2c::mixed_c2c_error;
use crate::mixed_c2c::mixed_c2c_in_place_error;
use crate::mixed_c2c::validate_mixed_c2c_ip;
use crate::mixed_c2c::validate_mixed_c2c_oop;
use crate::mixed_c2c::MixedC2cCore;
use crate::mixed_c2c::MixedC2cInPlaceArray;
use crate::mixed_c2c::MixedC2cInPlaceWorkspace;
use crate::mixed_c2c::MixedC2cWorkspace;
use crate::mixed_c2c_plan::MixedC2cPlan;
use crate::mixed_r2c::mixed_r2c_error;
use crate::mixed_r2c::mixed_r2c_in_place_error;
use crate::mixed_r2c::validate_mixed_r2c_ip;
use crate::mixed_r2c::validate_mixed_r2c_oop;
use crate::mixed_r2c::MixedR2cCore;
use crate::mixed_r2c::MixedR2cInPlaceArray;
use crate::mixed_r2c::MixedR2cInPlaceWorkspace;
use crate::mixed_r2c::MixedR2cWorkspace;
use crate::mixed_r2c_plan::MixedR2cPlan;
use crate::r2c::preflight_common;
use crate::r2c::preflight_in_place;
use crate::r2c::r2c_in_place_error;
use crate::r2c::r2c_out_of_place_error;
use crate::r2c::stored_len;
use crate::r2c::R2cInPlaceArray;
use crate::r2c::R2cInPlaceWorkspace;
use crate::r2c::R2cWorkspace;
use crate::r2c::TransformPlanCore;
use crate::r2c_plan::R2cPlan;
use crate::r2r::r2r_in_place_error;
use crate::r2r::r2r_out_of_place_error;
use crate::r2r::validate_r2r_in_place;
use crate::r2r::validate_r2r_out_of_place;
use crate::r2r::R2rCore;
use crate::r2r::R2rInPlaceArray;
use crate::r2r::R2rInPlaceWorkspace;
use crate::r2r::R2rWorkspace;
use crate::r2r_plan::R2rPlan;
use crate::scalar::Complex;
use crate::scalar::FftReal;
use crate::scalar::R2rScalar;
use crate::words::PlanFamily;
use crate::workspace::verdict;
use crate::workspace::verdict_of;

verus! {

/// The shorter of two lengths.
pub open spec fn shorter_len(left: nat, right: nat) -> nat {
    if left < right {
        left
    } else {
        right
    }
}

/// What is wrong with each member of an out-of-place execution.
pub open spec fn r2r_verdicts<T: R2rScalar, const N: usize, const M: usize>(
    core: R2rCore<N, M>,
    direction: Direction,
    sources: Seq<PencilArray<T, N, M>>,
    destinations: Seq<PencilArray<T, N, M>>,
    workspace: R2rWorkspace<T, N, M>,
) -> Seq<Result<(), R2rError>> {
    Seq::new(
        shorter_len(sources.len(), destinations.len()),
        |i: int|
            verdict_of::<R2rError>(
                r2r_out_of_place_error(core, direction, sources[i], destinations[i], workspace),
            ),
    )
}

fn judge_r2r<T: R2rScalar, const N: usize, const M: usize>(
    core: &R2rCore<N, M>,
    direction: Direction,
    sources: &Vec<PencilArray<T, N, M>>,
    destinations: &Vec<PencilArray<T, N, M>>,
    workspace: &R2rWorkspace<T, N, M>,
) -> (verdicts: Vec<Result<(), R2rError>>)
    requires
        core.wf(),
    ensures
        verdicts@ == r2r_verdicts(*core, direction, sources@, destinations@, *workspace),
{
    let mut verdicts: Vec<Result<(), R2rError>> = Vec::new();
    let ghost all = r2r_verdicts(*core, direction, sources@, destinations@, *workspace);
    while verdicts.len() < sources.len() && verdicts.len() < destinations.len()
        invariant
            core.wf(),
            all == r2r_verdicts(*core, direction, sources@, destinations@, *workspace),
            verdicts@.len() <= all.len(),
            verdicts@ == all.take(verdicts@.len() as int),
        decreases all.len() - verdicts@.len(),
    {
        let index: usize = verdicts.len();
        let error = validate_r2r_out_of_place(
            core,
            direction,
            &sources[index],
            &destinations[index],
            workspace,
        );
        verdicts.push(verdict(error));
        assert(verdicts@ =~= all.take(index + 1));
    }
    assert(all.take(all.len() as int) =~= all);
    verdicts
}

/// What is wrong with each member of an in-place execution.
pub open spec fn r2r_in_place_verdicts<T: R2rScalar, const N: usize, const M: usize>(
    core: R2rCore<N, M>,
    direction: Direction,
    arrays: Seq<R2rInPlaceArray<T, N, M>>,
    workspace: R2rInPlaceWorkspace<T, N, M>,
) -> Seq<Result<(), R2rError>> {
    Seq::new(
        arrays.len(),
        |i: int| verdict_of::<R2rError>(r2r_in_place_error(core, direction, arrays[i], workspace)),
    )
}

fn judge_r2r_in_place<T: R2rScalar, const N: usize, const M: usize>(
    core: &R2rCore<N, M>,
    direction: Direction,
    arrays: &Vec<R2rInPlaceArray<T, N, M>>,
    workspace: &R2rInPlaceWorkspace<T, N, M>,
) -> (verdicts: Vec<Result<(), R2rError>>)
    requires
        core.wf(),
    ensures
        verdicts@ == r2r_in_place_verdicts(*core, direction, arrays@, *workspace),
{
    let mut verdicts: Vec<Result<(), R2rError>> = Vec::new();
    let ghost all = r2r_in_place_verdicts(*core, direction, arrays@, *workspace);
    while verdicts.len() < arrays.len()
        invariant
            core.wf(),
            all == r2r_in_place_verdicts(*core, direction, arrays@, *workspace),
            verdicts@.len() <= all.len(),
            verdicts@ == all.take(verdicts@.len() as int),
        decreases all.len() - verdicts@.len(),
    {
        let index: usize = verdicts.len();
        let error = validate_r2r_in_place(core, direction, &arrays[index], workspace);
        verdicts.push(verdict(error));
        assert(verdicts@ =~= all.take(index + 1));
    }
    assert(all.take(all.len() as int) =~= all);
    verdicts
}

/// What is wrong with each member of an out-of-place execution.
pub open spec fn mixed_c2c_verdicts<R: FftReal, const N: usize, const M: usize>(
    core: MixedC2cCore<N, M>,
    direction: Direction,
    sources: Seq<PencilArray<Complex<R>, N, M>>,
    destinations: Seq<PencilArray<Complex<R>, N, M>>,
    workspace: MixedC2cWorkspace<R, N, M>,
) -> Seq<Result<(), MixedError>> {
    Seq::new(
        shorter_len(sources.len(), destinations.len()),
        |i: int|
            verdict_of::<MixedError>(
                mixed_c2c_error(core, direction, sources[i], destinations[i], workspace),
            ),
    )
}

fn judge_mixed_c2c<R: FftReal, const N: usize, const M: usize>(
    core: &MixedC2cCore<N, M>,
    direction: Direction,
    sources: &Vec<PencilArray<Complex<R>, N, M>>,
    destinations: &Vec<PencilArray<Complex<R>, N, M>>,
    workspace: &MixedC2cWorkspace<R, N, M>,
) -> (verdicts: Vec<Result<(), MixedError>>)
    requires
        core.wf(),
    ensures
        verdicts@ == mixed_c2c_verdicts(*core, direction, sources@, destinations@, *workspace),
{
    let mut verdicts: Vec<Result<(), MixedError>> = Vec::new();
    let ghost all = mixed_c2c_verdicts(*core, direction, sources@, destinations@, *workspace);
    while verdicts.len() < sources.len() && verdicts.len() < destinations.len()
        invariant
            core.wf(),
            all == mixed_c2c_verdicts(*core, direction, sources@, destinations@, *workspace),
            verdicts@.len() <= all.len(),
            verdicts@ == all.take(verdicts@.len() as int),
        decreases all.len() - verdicts@.len(),
    {
        let index: usize = verdicts.len();
        let error = validate_mixed_c2c_oop(
            core,
            direction,
            &sources[index],
            &destinations[index],
            workspace,
        );
        verdicts.push(verdict(error));
        assert(verdicts@ =~= all.take(index + 1));
    }
    assert(all.take(all.len() as int) =~= all);
    verdicts
}

/// What is wrong with each member of an in-place execution.
pub open spec fn mixed_c2c_in_place_verdicts<R: FftReal, const N: usize, const M: usize>(
    core: MixedC2cCore<N, M>,
    direction: Direction,
    arrays: Seq<MixedC2cInPlaceArray<R, N, M>>,
    workspace: MixedC2cInPlaceWorkspace<R, N, M>,
) -> Seq<Result<(), MixedError>> {
    Seq::new(
        arrays.len(),
        |i: int| verdict_of::<MixedError>(mixed_c2c_in_place_error(core, direction, arrays[i], workspace)),
    )
}

fn judge_mixed_c2c_in_place<R: FftReal, const N: usize, const M: usize>(
    core: &MixedC2cCore<N, M>,
    direction: Direction,
    arrays: &Vec<MixedC2cInPlaceArray<R, N, M>>,
    workspace: &MixedC2cInPlaceWorkspace<R, N, M>,
) -> (verdicts: Vec<Result<(), MixedError>>)
    requires
        core.wf(),
    ensures
        verdicts@ == mixed_c2c_in_place_verdicts(*core, direction, arrays@, *workspace),
{
    let mut verdicts: Vec<Result<(), MixedError>> = Vec::new();
    let ghost all = mixed_c2c_in_place_verdicts(*core, direction, arrays@, *workspace);
    while verdicts.len() < arrays.len()
        invariant
            core.wf(),
            all == mixed_c2c_in_place_verdicts(*core, direction, arrays@, *workspace),
            verdicts@.len() <= all.len(),
            verdicts@ == all.take(verdicts@.len() as int),
        decreases all.len() - verdicts@.len(),
    {
        let index: usize = verdicts.len();
        let error = validate_mixed_c2c_ip(core, direction, &arrays[index], workspace);
        verdicts.push(verdict(error));
        assert(verdicts@ =~= all.take(index + 1));
    }
    assert(all.take(all.len() as int) =~= all);
    verdicts
}

/// What is wrong with each member of an out-of-place execution.
pub open spec fn r2c_verdicts<R: FftReal, S, U, const N: usize, const M: usize>(
    core: TransformPlanCore<N, M>,
    direction: Direction,
    sources: Seq<PencilArray<S, N, M>>,
    destinations: Seq<PencilArray<U, N, M>>,
    workspace: R2cWorkspace<R, N, M>,
) -> Seq<Result<(), R2cError>> {
    Seq::new(
        shorter_len(sources.len(), destinations.len()),
        |i: int|
            verdict_of::<R2cError>(
                r2c_out_of_place_error(core, direction, sources[i], destinations[i], workspace),
            ),
    )
}

fn judge_r2c<R: FftReal, S, U, const N: usize, const M: usize>(
    core: &TransformPlanCore<N, M>,
    direction: Direction,
    sources: &Vec<PencilArray<S, N, M>>,
    destinations: &Vec<PencilArray<U, N, M>>,
    workspace: &R2cWorkspace<R, N, M>,
) -> (verdicts: Vec<Result<(), R2cError>>)
    requires
        core.wf(),
    ensures
        verdicts@ == r2c_verdicts(*core, direction, sources@, destinations@, *workspace),
{
    let mut verdicts: Vec<Result<(), R2cError>> = Vec::new();
    let ghost all = r2c_verdicts(*core, direction, sources@, destinations@, *workspace);
    while verdicts.len() < sources.len() && verdicts.len() < destinations.len()
        invariant
            core.wf(),
            all == r2c_verdicts(*core, direction, sources@, destinations@, *workspace),
            verdicts@.len() <= all.len(),
            verdicts@ == all.take(verdicts@.len() as int),
        decreases all.len() - verdicts@.len(),
    {
        let index: usize = verdicts.len();
        let error = preflight_common(
            core,
            direction,
            &sources[index],
            &destinations[index],
            workspace,
        );
        verdicts.push(verdict(error));
        assert(verdicts@ =~= all.take(index + 1));
    }
    assert(all.take(all.len() as int) =~= all);
    verdicts
}

/// What is found wrong with one member of an in-place execution. It rests on how much the
/// allocator gave.
pub open spec fn r2c_judged<R: FftReal, const N: usize, const M: usize>(
    core: TransformPlanCore<N, M>,
    direction: Direction,
    array: R2cInPlaceArray<R, N, M>,
    workspace: R2cInPlaceWorkspace<R, N, M>,
    found: Result<(), R2cError>,
) -> bool {
    exists|capacity: usize|
        stored_len(array.shared) <= capacity && found == verdict_of::<R2cError>(
            #[trigger] r2c_in_place_error(core, direction, array, workspace, capacity),
        )
}

/// What is found wrong with each member of an in-place execution.
pub open spec fn r2c_all_judged<R: FftReal, const N: usize, const M: usize>(
    core: TransformPlanCore<N, M>,
    direction: Direction,
    arrays: Seq<R2cInPlaceArray<R, N, M>>,
    workspace: R2cInPlaceWorkspace<R, N, M>,
    found: Seq<Result<(), R2cError>>,
) -> bool {
    &&& found.len() == arrays.len()
    &&& forall|i: int|
        0 <= i < arrays.len() ==> r2c_judged(
            core,
            direction,
            arrays[i],
            workspace,
            #[trigger] found[i],
        )
}

fn judge_r2c_in_place<R: FftReal, const N: usize, const M: usize>(
    core: &TransformPlanCore<N, M>,
    direction: Direction,
    arrays: &Vec<R2cInPlaceArray<R, N, M>>,
    workspace: &R2cInPlaceWorkspace<R, N, M>,
) -> (found: Vec<Result<(), R2cError>>)
    requires
        core.wf(),
    ensures
        r2c_all_judged(*core, direction, arrays@, *workspace, found@),
{
    let mut found: Vec<Result<(), R2cError>> = Vec::new();
    while found.len() < arrays.len()
        invariant
            core.wf(),
            found@.len() <= arrays@.len(),
            forall|i: int|
                0 <= i < found@.len() ==> r2c_judged(
                    *core,
                    direction,
                    arrays@[i],
                    *workspace,
                    #[trigger] found@[i],
                ),
        decreases arrays@.len() - found@.len(),
    {
        let index: usize = found.len();
        let error: Option<FftError> = preflight_in_place(core, direction, &arrays[index], workspace);
        let outcome: Result<(), R2cError> = verdict(error);
        assert(r2c_judged(*core, direction, arrays@[index as int], *workspace, outcome));
        found.push(outcome);
    }
    found
}

/// What is wrong with each member of an out-of-place execution.
pub open spec fn mixed_r2c_verdicts<R: FftReal, S, U, const N: usize, const M: usize>(
    core: MixedR2cCore<N, M>,
    direction: Direction,
    sources: Seq<PencilArray<S, N, M>>,
    destinations: Seq<PencilArray<U, N, M>>,
    workspace: MixedR2cWorkspace<R, N, M>,
) -> Seq<Result<(), MixedError>> {
    Seq::new(
        shorter_len(sources.len(), destinations.len()),
        |i: int|
            verdict_of::<MixedError>(
                mixed_r2c_error(core, direction, sources[i], destinations[i], workspace),
            ),
    )
}

fn judge_mixed_r2c<R: FftReal, S, U, const N: usize, const M: usize>(
    core: &MixedR2cCore<N, M>,
    direction: Direction,
    sources: &Vec<PencilArray<S, N, M>>,
    destinations: &Vec<PencilArray<U, N, M>>,
    workspace: &MixedR2cWorkspace<R, N, M>,
) -> (verdicts: Vec<Result<(), MixedError>>)
    requires
        core.wf(),
    ensures
        verdicts@ == mixed_r2c_verdicts(*core, direction, sources@, destinations@, *workspace),
{
    let mut verdicts: Vec<Result<(), MixedError>> = Vec::new();
    let ghost all = mixed_r2c_verdicts(*core, direction, sources@, destinations@, *workspace);
    while verdicts.len() < sources.len() && verdicts.len() < destinations.len()
        invariant
            core.wf(),
            all == mixed_r2c_verdicts(*core, direction, sources@, destinations@, *workspace),
            verdicts@.len() <= all.len(),
            verdicts@ == all.take(verdicts@.len() as int),
        decreases all.len() - verdicts@.len(),
    {
        let index: usize = verdicts.len();
        let error = validate_mixed_r2c_oop(
            core,
            direction,
            &sources[index],
            &destinations[index],
            workspace,
        );
        verdicts.push(verdict(error));
        assert(verdicts@ =~= all.take(index + 1));
    }
    assert(all.take(all.len() as int) =~= all);
    verdicts
}

/// What is found wrong with one member of an in-place execution. It rests on how much the
/// allocator gave.
pub open spec fn mixed_r2c_judged<R: FftReal, const N: usize, const M: usize>(
    core: MixedR2cCore<N, M>,
    direction: Direction,
    array: MixedR2cInPlaceArray<R, N, M>,
    workspace: MixedR2cInPlaceWorkspace<R, N, M>,
    found: Result<(), MixedError>,
) -> bool {
    exists|capacity: usize|
        stored_len(array.shared) <= capacity && found == verdict_of::<MixedError>(
            #[trigger] mixed_r2c_in_place_error(core, direction, array, workspace, capacity),
        )
}

/// What is found wrong with each member of an in-place execution.
pub open spec fn mixed_r2c_all_judged<R: FftReal, const N: usize, const M: usize>(
    core: MixedR2cCore<N, M>,
    direction: Direction,
    arrays: Seq<MixedR2cInPlaceArray<R, N, M>>,
    workspace: MixedR2cInPlaceWorkspace<R, N, M>,
    found: Seq<Result<(), MixedError>>,
) -> bool {
    &&& found.len() == arrays.len()
    &&& forall|i: int|
        0 <= i < arrays.len() ==> mixed_r2c_judged(
            core,
            direction,
            arrays[i],
            workspace,
            #[trigger] found[i],
        )
}

fn judge_mixed_r2c_in_place<R: FftReal, const N: usize, const M: usize>(
    core: &MixedR2cCore<N, M>,
    direction: Direction,
    arrays: &Vec<MixedR2cInPlaceArray<R, N, M>>,
    workspace: &MixedR2cInPlaceWorkspace<R, N, M>,
) -> (found: Vec<Result<(), MixedError>>)
    requires
        core.wf(),
    ensures
        mixed_r2c_all_judged(*core, direction, arrays@, *workspace, found@),
{
    let mut found: Vec<Result<(), MixedError>> = Vec::new();
    while found.len() < arrays.len()
        invariant
            core.wf(),
            found@.len() <= arrays@.len(),
            forall|i: int|
                0 <= i < found@.len() ==> mixed_r2c_judged(
                    *core,
                    direction,
                    arrays@[i],
                    *workspace,
                    #[trigger] found@[i],
                ),
        decreases arrays@.len() - found@.len(),
    {
        let index: usize = found.len();
        let error: Option<FftError> = validate_mixed_r2c_ip(core, direction, &arrays[index], workspace);
        let outcome: Result<(), MixedError> = verdict(error);
        assert(mixed_r2c_judged(*core, direction, arrays@[index as int], *workspace, outcome));
        found.push(outcome);
    }
    found
}

impl<T: R2rScalar, const N: usize, const M: usize> R2rPlan<T, N, M> {
    /// Executes the unnormalized transform for each source in order, with one workspace. All
    /// members are checked before the first is executed.
    pub fn forward_many<H: Fn([u64; 5]) -> bool, D: Fn(u64, &Vec<u64>) -> Result<(), FftError>, A: Fn(bool) -> bool, X: Fn(usize, &PencilArray<T, N, M>, PencilArray<T, N, M>, R2rWorkspace<T, N, M>) -> ((PencilArray<T, N, M>, R2rWorkspace<T, N, M>), Result<(), R2rError>)>(
        &self,
        peers: &Peers<H, D, A>,
        sources: &Vec<PencilArray<T, N, M>>,
        destinations: Vec<PencilArray<T, N, M>>,
        workspace: R2rWorkspace<T, N, M>,
        execute: &X,
    ) -> (result: ((Vec<PencilArray<T, N, M>>, R2rWorkspace<T, N, M>), Result<(), CollectionError<R2rError>>))
        requires
            self.core.wf(),
            peers_answer(*peers),
            forall|index: usize, source: &PencilArray<T, N, M>, array: PencilArray<T, N, M>, workspace: R2rWorkspace<T, N, M>| #[trigger]
                execute.requires((index, source, array, workspace)),
        ensures
            many_done(
                *peers,
                (ManyCall {
                    family: PlanFamily::R2r,
                    direction: Direction::Forward,
                    in_place: false,
                    sources: sources.len(),
                    destinations: destinations.len(),
                }),
                self.core.descriptor,
                r2r_verdicts(
                    self.core,
                    Direction::Forward,
                    sources@,
                    destinations@,
                    workspace,
                ),
                (Paired { sources, execute, arrays: destinations.len() }),
                (destinations, workspace),
                result.0,
                result.1,
            ),
    {
        let verdicts = judge_r2r(
            &self.core,
            Direction::Forward,
            sources,
            &destinations,
            &workspace,
        );
        let members = Paired { sources, execute, arrays: destinations.len() };
        let call = ManyCall {
            family: PlanFamily::R2r,
            direction: Direction::Forward,
            in_place: false,
            sources: sources.len(),
            destinations: destinations.len(),
        };
        run_many(
            peers,
            call,
            &self.core.descriptor,
            &verdicts,
            &members,
            (destinations, workspace),
        )
    }

    /// Executes the normalized way back for each source in order, with one workspace. All
    /// members are checked before the first is executed.
    pub fn inverse_many<H: Fn([u64; 5]) -> bool, D: Fn(u64, &Vec<u64>) -> Result<(), FftError>, A: Fn(bool) -> bool, X: Fn(usize, &PencilArray<T, N, M>, PencilArray<T, N, M>, R2rWorkspace<T, N, M>) -> ((PencilArray<T, N, M>, R2rWorkspace<T, N, M>), Result<(), R2rError>)>(
        &self,
        peers: &Peers<H, D, A>,
        sources: &Vec<PencilArray<T, N, M>>,
        destinations: Vec<PencilArray<T, N, M>>,
        workspace: R2rWorkspace<T, N, M>,
        execute: &X,
    ) -> (result: ((Vec<PencilArray<T, N, M>>, R2rWorkspace<T, N, M>), Result<(), CollectionError<R2rError>>))
        requires
            self.core.wf(),
            peers_answer(*peers),
            forall|index: usize, source: &PencilArray<T, N, M>, array: PencilArray<T, N, M>, workspace: R2rWorkspace<T, N, M>| #[trigger]
                execute.requires((index, source, array, workspace)),
        ensures
            many_done(
                *peers,
                (ManyCall {
                    family: PlanFamily::R2r,
                    direction: Direction::Inverse,
                    in_place: false,
                    sources: sources.len(),
                    destinations: destinations.len(),
                }),
                self.core.descriptor,
                r2r_verdicts(
                    self.core,
                    Direction::Inverse,
                    sources@,
                    destinations@,
                    workspace,
                ),
                (Paired { sources, execute, arrays: destinations.len() }),
                (destinations, workspace),
                result.0,
                result.1,
            ),
    {
        let verdicts = judge_r2r(
            &self.core,
            Direction::Inverse,
            sources,
            &destinations,
            &workspace,
        );
        let members = Paired { sources, execute, arrays: destinations.len() };
        let call = ManyCall {
            family: PlanFamily::R2r,
            direction: Direction::Inverse,
            in_place: false,
            sources: sources.len(),
            destinations: destinations.len(),
        };
        run_many(
            peers,
            call,
            &self.core.descriptor,
            &verdicts,
            &members,
            (destinations, workspace),
        )
    }

    /// Executes the way back without normalization for each source in order, with one workspace. All
    /// members are checked before the first is executed.
    pub fn backward_many<H: Fn([u64; 5]) -> bool, D: Fn(u64, &Vec<u64>) -> Result<(), FftError>, A: Fn(bool) -> bool, X: Fn(usize, &PencilArray<T, N, M>, PencilArray<T, N, M>, R2rWorkspace<T, N, M>) -> ((PencilArray<T, N, M>, R2rWorkspace<T, N, M>), Result<(), R2rError>)>(
        &self,
        peers: &Peers<H, D, A>,
        sources: &Vec<PencilArray<T, N, M>>,
        destinations: Vec<PencilArray<T, N, M>>,
        workspace: R2rWorkspace<T, N, M>,
        execute: &X,
    ) -> (result: ((Vec<PencilArray<T, N, M>>, R2rWorkspace<T, N, M>), Result<(), CollectionError<R2rError>>))
        requires
            self.core.wf(),
            peers_answer(*peers),
            forall|index: usize, source: &PencilArray<T, N, M>, array: PencilArray<T, N, M>, workspace: R2rWorkspace<T, N, M>| #[trigger]
                execute.requires((index, source, array, workspace)),
        ensures
            many_done(
                *peers,
                (ManyCall {
                    family: PlanFamily::R2r,
                    direction: Direction::Backward,
                    in_place: false,
                    sources: sources.len(),
                    destinations: destinations.len(),
                }),
                self.core.descriptor,
                r2r_verdicts(
                    self.core,
                    Direction::Backward,
                    sources@,
                    destinations@,
                    workspace,
                ),
                (Paired { sources, execute, arrays: destinations.len() }),
                (destinations, workspace),
                result.0,
                result.1,
            ),
    {
        let verdicts = judge_r2r(
            &self.core,
            Direction::Backward,
            sources,
            &destinations,
            &workspace,
        );
        let members = Paired { sources, execute, arrays: destinations.len() };
        let call = ManyCall {
            family: PlanFamily::R2r,
            direction: Direction::Backward,
            in_place: false,
            sources: sources.len(),
            destinations: destinations.len(),
        };
        run_many(
            peers,
            call,
            &self.core.descriptor,
            &verdicts,
            &members,
            (destinations, workspace),
        )
    }

    /// Executes the unnormalized transform in each array in order, with one workspace. All
    /// members are checked before the first is executed.
    pub fn forward_many_in_place<H: Fn([u64; 5]) -> bool, D: Fn(u64, &Vec<u64>) -> Result<(), FftError>, A: Fn(bool) -> bool, X: Fn(usize, R2rInPlaceArray<T, N, M>, R2rInPlaceWorkspace<T, N, M>) -> ((R2rInPlaceArray<T, N, M>, R2rInPlaceWorkspace<T, N, M>), Result<(), R2rError>)>(
        &self,
        peers: &Peers<H, D, A>,
        arrays: Vec<R2rInPlaceArray<T, N, M>>,
        workspace: R2rInPlaceWorkspace<T, N, M>,
        execute: &X,
    ) -> (result: ((Vec<R2rInPlaceArray<T, N, M>>, R2rInPlaceWorkspace<T, N, M>), Result<(), CollectionError<R2rError>>))
        requires
            self.core.wf(),
            peers_answer(*peers),
            forall|index: usize, array: R2rInPlaceArray<T, N, M>, workspace: R2rInPlaceWorkspace<T, N, M>| #[trigger]
                execute.requires((index, array, workspace)),
        ensures
            many_done(
                *peers,
                (ManyCall {
                    family: PlanFamily::R2r,
                    direction: Direction::Forward,
                    in_place: true,
                    sources: arrays.len(),
                    destinations: arrays.len(),
                }),
                self.core.descriptor,
                r2r_in_place_verdicts(self.core, Direction::Forward, arrays@, workspace),
                (Single { execute, arrays: arrays.len() }),
                (arrays, workspace),
                result.0,
                result.1,
            ),
    {
        let verdicts = judge_r2r_in_place(
            &self.core,
            Direction::Forward,
            &arrays,
            &workspace,
        );
        let members = Single { execute, arrays: arrays.len() };
        let call = ManyCall {
            family: PlanFamily::R2r,
            direction: Direction::Forward,
            in_place: true,
            sources: arrays.len(),
            destinations: arrays.len(),
        };
        run_many(
            peers,
            call,
            &self.core.descriptor,
            &verdicts,
            &members,
            (arrays, workspace),
        )
    }

    /// Executes the normalized way back in each array in order, with one workspace. All
    /// members are checked before the first is executed.
    pub fn inverse_many_in_place<H: Fn([u64; 5]) -> bool, D: Fn(u64, &Vec<u64>) -> Result<(), FftError>, A: Fn(bool) -> bool, X: Fn(usize, R2rInPlaceArray<T, N, M>, R2rInPlaceWorkspace<T, N, M>) -> ((R2rInPlaceArray<T, N, M>, R2rInPlaceWorkspace<T, N, M>), Result<(), R2rError>)>(
        &self,
        peers: &Peers<H, D, A>,
        arrays: Vec<R2rInPlaceArray<T, N, M>>,
        workspace: R2rInPlaceWorkspace<T, N, M>,
        execute: &X,
    ) -> (result: ((Vec<R2rInPlaceArray<T, N, M>>, R2rInPlaceWorkspace<T, N, M>), Result<(), CollectionError<R2rError>>))
        requires
            self.core.wf(),
            peers_answer(*peers),
            forall|index: usize, array: R2rInPlaceArray<T, N, M>, workspace: R2rInPlaceWorkspace<T, N, M>| #[trigger]
                execute.requires((index, array, workspace)),
        ensures
            many_done(
                *peers,
                (ManyCall {
                    family: PlanFamily::R2r,
                    direction: Direction::Inverse,
                    in_place: true,
                    sources: arrays.len(),
                    destinations: arrays.len(),
                }),
                self.core.descriptor,
                r2r_in_place_verdicts(self.core, Direction::Inverse, arrays@, workspace),
                (Single { execute, arrays: arrays.len() }),
                (arrays, workspace),
                result.0,
                result.1,
            ),
    {
        let verdicts = judge_r2r_in_place(
            &self.core,
            Direction::Inverse,
            &arrays,
            &workspace,
        );
        let members = Single { execute, arrays: arrays.len() };
        let call = ManyCall {
            family: PlanFamily::R2r,
            direction: Direction::Inverse,
            in_place: true,
            sources: arrays.len(),
            destinations: arrays.len(),
        };
        run_many(
            peers,
            call,
            &self.core.descriptor,
            &verdicts,
            &members,
            (arrays, workspace),
        )
    }

    /// Executes the way back without normalization in each array in order, with one workspace. All
    /// members are checked before the first is executed.
    pub fn backward_many_in_place<H: Fn([u64; 5]) -> bool, D: Fn(u64, &Vec<u64>) -> Result<(), FftError>, A: Fn(bool) -> bool, X: Fn(usize, R2rInPlaceArray<T, N, M>, R2rInPlaceWorkspace<T, N, M>) -> ((R2rInPlaceArray<T, N, M>, R2rInPlaceWorkspace<T, N, M>), Result<(), R2rError>)>(
        &self,
        peers: &Peers<H, D, A>,
        arrays: Vec<R2rInPlaceArray<T, N, M>>,
        workspace: R2rInPlaceWorkspace<T, N, M>,
        execute: &X,
    ) -> (result: ((Vec<R2rInPlaceArray<T, N, M>>, R2rInPlaceWorkspace<T, N, M>), Result<(), CollectionError<R2rError>>))
        requires
            self.core.wf(),
            peers_answer(*peers),
            forall|index: usize, array: R2rInPlaceArray<T, N, M>, workspace: R2rInPlaceWorkspace<T, N, M>| #[trigger]
                execute.requires((index, array, workspace)),
        ensures
            many_done(
                *peers,
                (ManyCall {
                    family: PlanFamily::R2r,
                    direction: Direction::Backward,
                    in_place: true,
                    sources: arrays.len(),
                    destinations: arrays.len(),
                }),
                self.core.descriptor,
                r2r_in_place_verdicts(self.core, Direction::Backward, arrays@, workspace),
                (Single { execute, arrays: arrays.len() }),
                (arrays, workspace),
                result.0,
                result.1,
            ),
    {
        let verdicts = judge_r2r_in_place(
            &self.core,
            Direction::Backward,
            &arrays,
            &workspace,
        );
        let members = Single { execute, arrays: arrays.len() };
        let call = ManyCall {
            family: PlanFamily::R2r,
            direction: Direction::Backward,
            in_place: true,
            sources: arrays.len(),
            destinations: arrays.len(),
        };
        run_many(
            peers,
            call,
            &self.core.descriptor,
            &verdicts,
            &members,
            (arrays, workspace),
        )
    }
}

impl<T: R2rScalar, const N: usize, const M: usize> DhtPlan<T, N, M> {
    /// Executes the unnormalized transform for each source in order, with one workspace. All
    /// members are checked before the first is executed.
    pub fn forward_many<H: Fn([u64; 5]) -> bool, D: Fn(u64, &Vec<u64>) -> Result<(), FftError>, A: Fn(bool) -> bool, X: Fn(usize, &PencilArray<T, N, M>, PencilArray<T, N, M>, R2rWorkspace<T, N, M>) -> ((PencilArray<T, N, M>, R2rWorkspace<T, N, M>), Result<(), R2rError>)>(
        &self,
        peers: &Peers<H, D, A>,
        sources: &Vec<PencilArray<T, N, M>>,
        destinations: Vec<PencilArray<T, N, M>>,
        workspace: R2rWorkspace<T, N, M>,
        execute: &X,
    ) -> (result: ((Vec<PencilArray<T, N, M>>, R2rWorkspace<T, N, M>), Result<(), CollectionError<R2rError>>))
        requires
            self.core.wf(),
            peers_answer(*peers),
            forall|index: usize, source: &PencilArray<T, N, M>, array: PencilArray<T, N, M>, workspace: R2rWorkspace<T, N, M>| #[trigger]
                execute.requires((index, source, array, workspace)),
        ensures
            many_done(
                *peers,
                (ManyCall {
                    family: PlanFamily::Dht,
                    direction: Direction::Forward,
                    in_place: false,
                    sources: sources.len(),
                    destinations: destinations.len(),
                }),
                self.core.descriptor,
                r2r_verdicts(
                    self.core,
                    Direction::Forward,
                    sources@,
                    destinations@,
                    workspace,
                ),
                (Paired { sources, execute, arrays: destinations.len() }),
                (destinations, workspace),
                result.0,
                result.1,
            ),
    {
        let verdicts = judge_r2r(
            &self.core,
            Direction::Forward,
            sources,
            &destinations,
            &workspace,
        );
        let members = Paired { sources, execute, arrays: destinations.len() };
        let call = ManyCall {
            family: PlanFamily::Dht,
            direction: Direction::Forward,
            in_place: false,
            sources: sources.len(),
            destinations: destinations.len(),
        };
        run_many(
            peers,
            call,
            &self.core.descriptor,
            &verdicts,
            &members,
            (destinations, workspace),
        )
    }

    /// Executes the normalized way back for each source in order, with one workspace. All
    /// members are checked before the first is executed.
    pub fn inverse_many<H: Fn([u64; 5]) -> bool, D: Fn(u64, &Vec<u64>) -> Result<(), FftError>, A: Fn(bool) -> bool, X: Fn(usize, &PencilArray<T, N, M>, PencilArray<T, N, M>, R2rWorkspace<T, N, M>) -> ((PencilArray<T, N, M>, R2rWorkspace<T, N, M>), Result<(), R2rError>)>(
        &self,
        peers: &Peers<H, D, A>,
        sources: &Vec<PencilArray<T, N, M>>,
        destinations: Vec<PencilArray<T, N, M>>,
        workspace: R2rWorkspace<T, N, M>,
        execute: &X,
    ) -> (result: ((Vec<PencilArray<T, N, M>>, R2rWorkspace<T, N, M>), Result<(), CollectionError<R2rError>>))
        requires
            self.core.wf(),
            peers_answer(*peers),
            forall|index: usize, source: &PencilArray<T, N, M>, array: PencilArray<T, N, M>, workspace: R2rWorkspace<T, N, M>| #[trigger]
                execute.requires((index, source, array, workspace)),
        ensures
            many_done(
                *peers,
                (ManyCall {
                    family: PlanFamily::Dht,
                    direction: Direction::Inverse,
                    in_place: false,
                    sources: sources.len(),
                    destinations: destinations.len(),
                }),
                self.core.descriptor,
                r2r_verdicts(
                    self.core,
                    Direction::Inverse,
                    sources@,
                    destinations@,
                    workspace,
                ),
                (Paired { sources, execute, arrays: destinations.len() }),
                (destinations, workspace),
                result.0,
                result.1,
            ),
    {
        let verdicts = judge_r2r(
            &self.core,
            Direction::Inverse,
            sources,
            &destinations,
            &workspace,
        );
        let members = Paired { sources, execute, arrays: destinations.len() };
        let call = ManyCall {
            family: PlanFamily::Dht,
            direction: Direction::Inverse,
            in_place: false,
            sources: sources.len(),
            destinations: destinations.len(),
        };
        run_many(
            peers,
            call,
            &self.core.descriptor,
            &verdicts,
            &members,
            (destinations, workspace),
        )
    }

    /// Executes the way back without normalization for each source in order, with one workspace. All
    /// members are checked before the first is executed.
    pub fn backward_many<H: Fn([u64; 5]) -> bool, D: Fn(u64, &Vec<u64>) -> Result<(), FftError>, A: Fn(bool) -> bool, X: Fn(usize, &PencilArray<T, N, M>, PencilArray<T, N, M>, R2rWorkspace<T, N, M>) -> ((PencilArray<T, N, M>, R2rWorkspace<T, N, M>), Result<(), R2rError>)>(
        &self,
        peers: &Peers<H, D, A>,
        sources: &Vec<PencilArray<T, N, M>>,
        destinations: Vec<PencilArray<T, N, M>>,
        workspace: R2rWorkspace<T, N, M>,
        execute: &X,
    ) -> (result: ((Vec<PencilArray<T, N, M>>, R2rWorkspace<T, N, M>), Result<(), CollectionError<R2rError>>))
        requires
            self.core.wf(),
            peers_answer(*peers),
            forall|index: usize, source: &PencilArray<T, N, M>, array: PencilArray<T, N, M>, workspace: R2rWorkspace<T, N, M>| #[trigger]
                execute.requires((index, source, array, workspace)),
        ensures
            many_done(
                *peers,
                (ManyCall {
                    family: PlanFamily::Dht,
                    direction: Direction::Backward,
                    in_place: false,
                    sources: sources.len(),
                    destinations: destinations.len(),
                }),
                self.core.descriptor,
                r2r_verdicts(
                    self.core,
                    Direction::Backward,
                    sources@,
                    destinations@,
                    workspace,
                ),
                (Paired { sources, execute, arrays: destinations.len() }),
                (destinations, workspace),
                result.0,
                result.1,
            ),
    {
        let verdicts = judge_r2r(
            &self.core,
            Direction::Backward,
            sources,
            &destinations,
            &workspace,
        );
        let members = Paired { sources, execute, arrays: destinations.len() };
        let call = ManyCall {
            family: PlanFamily::Dht,
            direction: Direction::Backward,
            in_place: false,
            sources: sources.len(),
            destinations: destinations.len(),
        };
        run_many(
            peers,
            call,
            &self.core.descriptor,
            &verdicts,
            &members,
            (destinations, workspace),
        )
    }

    /// Executes the unnormalized transform in each array in order, with one workspace. All
    /// members are checked before the first is executed.
    pub fn forward_many_in_place<H: Fn([u64; 5]) -> bool, D: Fn(u64, &Vec<u64>) -> Result<(), FftError>, A: Fn(bool) -> bool, X: Fn(usize, R2rInPlaceArray<T, N, M>, R2rInPlaceWorkspace<T, N, M>) -> ((R2rInPlaceArray<T, N, M>, R2rInPlaceWorkspace<T, N, M>), Result<(), R2rError>)>(
        &self,
        peers: &Peers<H, D, A>,
        arrays: Vec<R2rInPlaceArray<T, N, M>>,
        workspace: R2rInPlaceWorkspace<T, N, M>,
        execute: &X,
    ) -> (result: ((Vec<R2rInPlaceArray<T, N, M>>, R2rInPlaceWorkspace<T, N, M>), Result<(), CollectionError<R2rError>>))
        requires
            self.core.wf(),
            peers_answer(*peers),
            forall|index: usize, array: R2rInPlaceArray<T, N, M>, workspace: R2rInPlaceWorkspace<T, N, M>| #[trigger]
                execute.requires((index, array, workspace)),
        ensures
            many_done(
                *peers,
                (ManyCall {
                    family: PlanFamily::Dht,
                    direction: Direction::Forward,
                    in_place: true,
                    sources: arrays.len(),
                    destinations: arrays.len(),
                }),
                self.core.descriptor,
                r2r_in_place_verdicts(self.core, Direction::Forward, arrays@, workspace),
                (Single { execute, arrays: arrays.len() }),
                (arrays, workspace),
                result.0,
                result.1,
            ),
    {
        let verdicts = judge_r2r_in_place(
            &self.core,
            Direction::Forward,
            &arrays,
            &workspace,
        );
        let members = Single { execute, arrays: arrays.len() };
        let call = ManyCall {
            family: PlanFamily::Dht,
            direction: Direction::Forward,
            in_place: true,
            sources: arrays.len(),
            destinations: arrays.len(),
        };
        run_many(
            peers,
            call,
            &self.core.descriptor,
            &verdicts,
            &members,
            (arrays, workspace),
        )
    }

    /// Executes the normalized way back in each array in order, with one workspace. All
    /// members are checked before the first is executed.
    pub fn inverse_many_in_place<H: Fn([u64; 5]) -> bool, D: Fn(u64, &Vec<u64>) -> Result<(), FftError>, A: Fn(bool) -> bool, X: Fn(usize, R2rInPlaceArray<T, N, M>, R2rInPlaceWorkspace<T, N, M>) -> ((R2rInPlaceArray<T, N, M>, R2rInPlaceWorkspace<T, N, M>), Result<(), R2rError>)>(
        &self,
        peers: &Peers<H, D, A>,
        arrays: Vec<R2rInPlaceArray<T, N, M>>,
        workspace: R2rInPlaceWorkspace<T, N, M>,
        execute: &X,
    ) -> (result: ((Vec<R2rInPlaceArray<T, N, M>>, R2rInPlaceWorkspace<T, N, M>), Result<(), CollectionError<R2rError>>))
        requires
            self.core.wf(),
            peers_answer(*peers),
            forall|index: usize, array: R2rInPlaceArray<T, N, M>, workspace: R2rInPlaceWorkspace<T, N, M>| #[trigger]
                execute.requires((index, array, workspace)),
        ensures
            many_done(
                *peers,
                (ManyCall {
                    family: PlanFamily::Dht,
                    direction: Direction::Inverse,
                    in_place: true,
                    sources: arrays.len(),
                    destinations: arrays.len(),
                }),
                self.core.descriptor,
                r2r_in_place_verdicts(self.core, Direction::Inverse, arrays@, workspace),
                (Single { execute, arrays: arrays.len() }),
                (arrays, workspace),
                result.0,
                result.1,
            ),
    {
        let verdicts = judge_r2r_in_place(
            &self.core,
            Direction::Inverse,
            &arrays,
            &workspace,
        );
        let members = Single { execute, arrays: arrays.len() };
        let call = ManyCall {
            family: PlanFamily::Dht,
            direction: Direction::Inverse,
            in_place: true,
            sources: arrays.len(),
            destinations: arrays.len(),
        };
        run_many(
            peers,
            call,
            &self.core.descriptor,
            &verdicts,
            &members,
            (arrays, workspace),
        )
    }

    /// Executes the way back without normalization in each array in order, with one workspace. All
    /// members are checked before the first is executed.
    pub fn backward_many_in_place<H: Fn([u64; 5]) -> bool, D: Fn(u64, &Vec<u64>) -> Result<(), FftError>, A: Fn(bool) -> bool, X: Fn(usize, R2rInPlaceArray<T, N, M>, R2rInPlaceWorkspace<T, N, M>) -> ((R2rInPlaceArray<T, N, M>, R2rInPlaceWorkspace<T, N, M>), Result<(), R2rError>)>(
        &self,
        peers: &Peers<H, D, A>,
        arrays: Vec<R2rInPlaceArray<T, N, M>>,
        workspace: R2rInPlaceWorkspace<T, N, M>,
        execute: &X,
    ) -> (result: ((Vec<R2rInPlaceArray<T, N, M>>, R2rInPlaceWorkspace<T, N, M>), Result<(), CollectionError<R2rError>>))
        requires
            self.core.wf(),
            peers_answer(*peers),
            forall|index: usize, array: R2rInPlaceArray<T, N, M>, workspace: R2rInPlaceWorkspace<T, N, M>| #[trigger]
                execute.requires((index, array, workspace)),
        ensures
            many_done(
                *peers,
                (ManyCall {
                    family: PlanFamily::Dht,
                    direction: Direction::Backward,
                    in_place: true,
                    sources: arrays.len(),
                    destinations: arrays.len(),
                }),
                self.core.descriptor,
                r2r_in_place_verdicts(self.core, Direction::Backward, arrays@, workspace),
                (Single { execute, arrays: arrays.len() }),
                (arrays, workspace),
                result.0,
                result.1,
            ),
    {
        let verdicts = judge_r2r_in_place(
            &self.core,
            Direction::Backward,
            &arrays,
            &workspace,
        );
        let members = Single { execute, arrays: arrays.len() };
        let call = ManyCall {
            family: PlanFamily::Dht,
            direction: Direction::Backward,
            in_place: true,
            sources: arrays.len(),
            destinations: arrays.len(),
        };
        run_many(
            peers,
            call,
            &self.core.descriptor,
            &verdicts,
            &members,
            (arrays, workspace),
        )
    }
}

impl<R: FftReal, const N: usize, const M: usize> R2cPlan<R, N, M> {
    /// Executes the unnormalized transform for each source in order, with one workspace. All
    /// members are checked before the first is executed.
    pub fn forward_many<H: Fn([u64; 5]) -> bool, D: Fn(u64, &Vec<u64>) -> Result<(), FftError>, A: Fn(bool) -> bool, X: Fn(usize, &PencilArray<R, N, M>, PencilArray<Complex<R>, N, M>, R2cWorkspace<R, N, M>) -> ((PencilArray<Complex<R>, N, M>, R2cWorkspace<R, N, M>), Result<(), R2cError>)>(
        &self,
        peers: &Peers<H, D, A>,
        sources: &Vec<PencilArray<R, N, M>>,
        destinations: Vec<PencilArray<Complex<R>, N, M>>,
        workspace: R2cWorkspace<R, N, M>,
        execute: &X,
    ) -> (result: ((Vec<PencilArray<Complex<R>, N, M>>, R2cWorkspace<R, N, M>), Result<(), CollectionError<R2cError>>))
        requires
            self.core.wf(),
            peers_answer(*peers),
            forall|index: usize, source: &PencilArray<R, N, M>, array: PencilArray<Complex<R>, N, M>, workspace: R2cWorkspace<R, N, M>| #[trigger]
                execute.requires((index, source, array, workspace)),
        ensures
            many_done(
                *peers,
                (ManyCall {
                    family: PlanFamily::R2c,
                    direction: Direction::Forward,
                    in_place: false,
                    sources: sources.len(),
                    destinations: destinations.len(),
                }),
                self.core.descriptor,
                r2c_verdicts(
                    self.core,
                    Direction::Forward,
                    sources@,
                    destinations@,
                    workspace,
                ),
                (Paired { sources, execute, arrays: destinations.len() }),
                (destinations, workspace),
                result.0,
                result.1,
            ),
    {
        let verdicts = judge_r2c(
            &self.core,
            Direction::Forward,
            sources,
            &destinations,
            &workspace,
        );
        let members = Paired { sources, execute, arrays: destinations.len() };
        let call = ManyCall {
            family: PlanFamily::R2c,
            direction: Direction::Forward,
            in_place: false,
            sources: sources.len(),
            destinations: destinations.len(),
        };
        run_many(
            peers,
            call,
            &self.core.descriptor,
            &verdicts,
            &members,
            (destinations, workspace),
        )
    }

    /// Executes the normalized way back for each source in order, with one workspace. All
    /// members are checked before the first is executed.
    pub fn inverse_many<H: Fn([u64; 5]) -> bool, D: Fn(u64, &Vec<u64>) -> Result<(), FftError>, A: Fn(bool) -> bool, X: Fn(usize, &PencilArray<Complex<R>, N, M>, PencilArray<R, N, M>, R2cWorkspace<R, N, M>) -> ((PencilArray<R, N, M>, R2cWorkspace<R, N, M>), Result<(), R2cError>)>(
        &self,
        peers: &Peers<H, D, A>,
        sources: &Vec<PencilArray<Complex<R>, N, M>>,
        destinations: Vec<PencilArray<R, N, M>>,
        workspace: R2cWorkspace<R, N, M>,
        execute: &X,
    ) -> (result: ((Vec<PencilArray<R, N, M>>, R2cWorkspace<R, N, M>), Result<(), CollectionError<R2cError>>))
        requires
            self.core.wf(),
            peers_answer(*peers),
            forall|index: usize, source: &PencilArray<Complex<R>, N, M>, array: PencilArray<R, N, M>, workspace: R2cWorkspace<R, N, M>| #[trigger]
                execute.requires((index, source, array, workspace)),
        ensures
            many_done(
                *peers,
                (ManyCall {
                    family: PlanFamily::R2c,
                    direction: Direction::Inverse,
                    in_place: false,
                    sources: sources.len(),
                    destinations: destinations.len(),
                }),
                self.core.descriptor,
                r2c_verdicts(
                    self.core,
                    Direction::Inverse,
                    sources@,
                    destinations@,
                    workspace,
                ),
                (Paired { sources, execute, arrays: destinations.len() }),
                (destinations, workspace),
                result.0,
                result.1,
            ),
    {
        let verdicts = judge_r2c(
            &self.core,
            Direction::Inverse,
            sources,
            &destinations,
            &workspace,
        );
        let members = Paired { sources, execute, arrays: destinations.len() };
        let call = ManyCall {
            family: PlanFamily::R2c,
            direction: Direction::Inverse,
            in_place: false,
            sources: sources.len(),
            destinations: destinations.len(),
        };
        run_many(
            peers,
            call,
            &self.core.descriptor,
            &verdicts,
            &members,
            (destinations, workspace),
        )
    }

    /// Executes the way back without normalization for each source in order, with one workspace. All
    /// members are checked before the first is executed.
    pub fn backward_many<H: Fn([u64; 5]) -> bool, D: Fn(u64, &Vec<u64>) -> Result<(), FftError>, A: Fn(bool) -> bool, X: Fn(usize, &PencilArray<Complex<R>, N, M>, PencilArray<R, N, M>, R2cWorkspace<R, N, M>) -> ((PencilArray<R, N, M>, R2cWorkspace<R, N, M>), Result<(), R2cError>)>(
        &self,
        peers: &Peers<H, D, A>,
        sources: &Vec<PencilArray<Complex<R>, N, M>>,
        destinations: Vec<PencilArray<R, N, M>>,
        workspace: R2cWorkspace<R, N, M>,
        execute: &X,
    ) -> (result: ((Vec<PencilArray<R, N, M>>, R2cWorkspace<R, N, M>), Result<(), CollectionError<R2cError>>))
        requires
            self.core.wf(),
            peers_answer(*peers),
            forall|index: usize, source: &PencilArray<Complex<R>, N, M>, array: PencilArray<R, N, M>, workspace: R2cWorkspace<R, N, M>| #[trigger]
                execute.requires((index, source, array, workspace)),
        ensures
            many_done(
                *peers,
                (ManyCall {
                    family: PlanFamily::R2c,
                    direction: Direction::Backward,
                    in_place: false,
                    sources: sources.len(),
                    destinations: destinations.len(),
                }),
                self.core.descriptor,
                r2c_verdicts(
                    self.core,
                    Direction::Backward,
                    sources@,
                    destinations@,
                    workspace,
                ),
                (Paired { sources, execute, arrays: destinations.len() }),
                (destinations, workspace),
                result.0,
                result.1,
            ),
    {
        let verdicts = judge_r2c(
            &self.core,
            Direction::Backward,
            sources,
            &destinations,
            &workspace,
        );
        let members = Paired { sources, execute, arrays: destinations.len() };
        let call = ManyCall {
            family: PlanFamily::R2c,
            direction: Direction::Backward,
            in_place: false,
            sources: sources.len(),
            destinations: destinations.len(),
        };
        run_many(
            peers,
            call,
            &self.core.descriptor,
            &verdicts,
            &members,
            (destinations, workspace),
        )
    }

    /// Executes the unnormalized transform in each array in order, with one workspace. All
    /// members are checked before the first is executed.
    pub fn forward_many_in_place<H: Fn([u64; 5]) -> bool, D: Fn(u64, &Vec<u64>) -> Result<(), FftError>, A: Fn(bool) -> bool, X: Fn(usize, R2cInPlaceArray<R, N, M>, R2cInPlaceWorkspace<R, N, M>) -> ((R2cInPlaceArray<R, N, M>, R2cInPlaceWorkspace<R, N, M>), Result<(), R2cError>)>(
        &self,
        peers: &Peers<H, D, A>,
        arrays: Vec<R2cInPlaceArray<R, N, M>>,
        workspace: R2cInPlaceWorkspace<R, N, M>,
        execute: &X,
    ) -> (result: ((Vec<R2cInPlaceArray<R, N, M>>, R2cInPlaceWorkspace<R, N, M>), Result<(), CollectionError<R2cError>>))
        requires
            self.core.wf(),
            peers_answer(*peers),
            forall|index: usize, array: R2cInPlaceArray<R, N, M>, workspace: R2cInPlaceWorkspace<R, N, M>| #[trigger]
                execute.requires((index, array, workspace)),
        ensures
            exists|found: Seq<Result<(), R2cError>>|
                {
                    &&& #[trigger] r2c_all_judged(
                        self.core,
                        Direction::Forward,
                        arrays@,
                        workspace,
                        found,
                    )
                    &&& many_done(
                        *peers,
                        (ManyCall {
                            family: PlanFamily::R2c,
                            direction: Direction::Forward,
                            in_place: true,
                            sources: arrays.len(),
                            destinations: arrays.len(),
                        }),
                        self.core.descriptor,
                        found,
                        (Single { execute, arrays: arrays.len() }),
                        (arrays, workspace),
                        result.0,
                        result.1,
                    )
                },
    {
        let verdicts = judge_r2c_in_place(
            &self.core,
            Direction::Forward,
            &arrays,
            &workspace,
        );
        let members = Single { execute, arrays: arrays.len() };
        let call = ManyCall {
            family: PlanFamily::R2c,
            direction: Direction::Forward,
            in_place: true,
            sources: arrays.len(),
            destinations: arrays.len(),
        };
        run_many(
            peers,
            call,
            &self.core.descriptor,
            &verdicts,
            &members,
            (arrays, workspace),
        )
    }

    /// Executes the normalized way back in each array in order, with one workspace. All
    /// members are checked before the first is executed.
    pub fn inverse_many_in_place<H: Fn([u64; 5]) -> bool, D: Fn(u64, &Vec<u64>) -> Result<(), FftError>, A: Fn(bool) -> bool, X: Fn(usize, R2cInPlaceArray<R, N, M>, R2cInPlaceWorkspace<R, N, M>) -> ((R2cInPlaceArray<R, N, M>, R2cInPlaceWorkspace<R, N, M>), Result<(), R2cError>)>(
        &self,
        peers: &Peers<H, D, A>,
        arrays: Vec<R2cInPlaceArray<R, N, M>>,
        workspace: R2cInPlaceWorkspace<R, N, M>,
        execute: &X,
    ) -> (result: ((Vec<R2cInPlaceArray<R, N, M>>, R2cInPlaceWorkspace<R, N, M>), Result<(), CollectionError<R2cError>>))
        requires
            self.core.wf(),
            peers_answer(*peers),
            forall|index: usize, array: R2cInPlaceArray<R, N, M>, workspace: R2cInPlaceWorkspace<R, N, M>| #[trigger]
                execute.requires((index, array, workspace)),
        ensures
            exists|found: Seq<Result<(), R2cError>>|
                {
                    &&& #[trigger] r2c_all_judged(
                        self.core,
                        Direction::Inverse,
                        arrays@,
                        workspace,
                        found,
                    )
                    &&& many_done(
                        *peers,
                        (ManyCall {
                            family: PlanFamily::R2c,
                            direction: Direction::Inverse,
                            in_place: true,
                            sources: arrays.len(),
                            destinations: arrays.len(),
                        }),
                        self.core.descriptor,
                        found,
                        (Single { execute, arrays: arrays.len() }),
                        (arrays, workspace),
                        result.0,
                        result.1,
                    )
                },
    {
        let verdicts = judge_r2c_in_place(
            &self.core,
            Direction::Inverse,
            &arrays,
            &workspace,
        );
        let members = Single { execute, arrays: arrays.len() };
        let call = ManyCall {
            family: PlanFamily::R2c,
            direction: Direction::Inverse,
            in_place: true,
            sources: arrays.len(),
            destinations: arrays.len(),
        };
        run_many(
            peers,
            call,
            &self.core.descriptor,
            &verdicts,
            &members,
            (arrays, workspace),
        )
    }

    /// Executes the way back without normalization in each array in order, with one workspace. All
    /// members are checked before the first is executed.
    pub fn backward_many_in_place<H: Fn([u64; 5]) -> bool, D: Fn(u64, &Vec<u64>) -> Result<(), FftError>, A: Fn(bool) -> bool, X: Fn(usize, R2cInPlaceArray<R, N, M>, R2cInPlaceWorkspace<R, N, M>) -> ((R2cInPlaceArray<R, N, M>, R2cInPlaceWorkspace<R, N, M>), Result<(), R2cError>)>(
        &self,
        peers: &Peers<H, D, A>,
        arrays: Vec<R2cInPlaceArray<R, N, M>>,
        workspace: R2cInPlaceWorkspace<R, N, M>,
        execute: &X,
    ) -> (result: ((Vec<R2cInPlaceArray<R, N, M>>, R2cInPlaceWorkspace<R, N, M>), Result<(), CollectionError<R2cError>>))
        requires
            self.core.wf(),
            peers_answer(*peers),
            forall|index: usize, array: R2cInPlaceArray<R, N, M>, workspace: R2cInPlaceWorkspace<R, N, M>| #[trigger]
                execute.requires((index, array, workspace)),
        ensures
            exists|found: Seq<Result<(), R2cError>>|
                {
                    &&& #[trigger] r2c_all_judged(
                        self.core,
                        Direction::Backward,
                        arrays@,
                        workspace,
                        found,
                    )
                    &&& many_done(
                        *peers,
                        (ManyCall {
                            family: PlanFamily::R2c,
                            direction: Direction::Backward,
                            in_place: true,
                            sources: arrays.len(),
                            destinations: arrays.len(),
                        }),
                        self.core.descriptor,
                        found,
                        (Single { execute, arrays: arrays.len() }),
                        (arrays, workspace),
                        result.0,
                        result.1,
                    )
                },
    {
        let verdicts = judge_r2c_in_place(
            &self.core,
            Direction::Backward,
            &arrays,
            &workspace,
        );
        let members = Single { execute, arrays: arrays.len() };
        let call = ManyCall {
            family: PlanFamily::R2c,
            direction: Direction::Backward,
            in_place: true,
            sources: arrays.len(),
            destinations: arrays.len(),
        };
        run_many(
            peers,
            call,
            &self.core.descriptor,
            &verdicts,
            &members,
            (arrays, workspace),
        )
    }
}

impl<R: FftReal, const N: usize, const M: usize> MixedC2cPlan<R, N, M> {
    /// Executes the unnormalized transform for each source in order, with one workspace. All
    /// members are checked before the first is executed.
    pub fn forward_many<H: Fn([u64; 5]) -> bool, D: Fn(u64, &Vec<u64>) -> Result<(), FftError>, A: Fn(bool) -> bool, X: Fn(usize, &PencilArray<Complex<R>, N, M>, PencilArray<Complex<R>, N, M>, MixedC2cWorkspace<R, N, M>) -> ((PencilArray<Complex<R>, N, M>, MixedC2cWorkspace<R, N, M>), Result<(), MixedError>)>(
        &self,
        peers: &Peers<H, D, A>,
        sources: &Vec<PencilArray<Complex<R>, N, M>>,
        destinations: Vec<PencilArray<Complex<R>, N, M>>,
        workspace: MixedC2cWorkspace<R, N, M>,
        execute: &X,
    ) -> (result: ((Vec<PencilArray<Complex<R>, N, M>>, MixedC2cWorkspace<R, N, M>), Result<(), CollectionError<MixedError>>))
        requires
            self.core.wf(),
            peers_answer(*peers),
            forall|index: usize, source: &PencilArray<Complex<R>, N, M>, array: PencilArray<Complex<R>, N, M>, workspace: MixedC2cWorkspace<R, N, M>| #[trigger]
                execute.requires((index, source, array, workspace)),
        ensures
            many_done(
                *peers,
                (ManyCall {
                    family: PlanFamily::MixedC2c,
                    direction: Direction::Forward,
                    in_place: false,
                    sources: sources.len(),
                    destinations: destinations.len(),
                }),
                self.core.descriptor,
                mixed_c2c_verdicts(
                    self.core,
                    Direction::Forward,
                    sources@,
                    destinations@,
                    workspace,
                ),
                (Paired { sources, execute, arrays: destinations.len() }),
                (destinations, workspace),
                result.0,
                result.1,
            ),
    {
        let verdicts = judge_mixed_c2c(
            &self.core,
            Direction::Forward,
            sources,
            &destinations,
            &workspace,
        );
        let members = Paired { sources, execute, arrays: destinations.len() };
        let call = ManyCall {
            family: PlanFamily::MixedC2c,
            direction: Direction::Forward,
            in_place: false,
            sources: sources.len(),
            destinations: destinations.len(),
        };
        run_many(
            peers,
            call,
            &self.core.descriptor,
            &verdicts,
            &members,
            (destinations, workspace),
        )
    }

    /// Executes the normalized way back for each source in order, with one workspace. All
    /// members are checked before the first is executed.
    pub fn inverse_many<H: Fn([u64; 5]) -> bool, D: Fn(u64, &Vec<u64>) -> Result<(), FftError>, A: Fn(bool) -> bool, X: Fn(usize, &PencilArray<Complex<R>, N, M>, PencilArray<Complex<R>, N, M>, MixedC2cWorkspace<R, N, M>) -> ((PencilArray<Complex<R>, N, M>, MixedC2cWorkspace<R, N, M>), Result<(), MixedError>)>(
        &self,
        peers: &Peers<H, D, A>,
        sources: &Vec<PencilArray<Complex<R>, N, M>>,
        destinations: Vec<PencilArray<Complex<R>, N, M>>,
        workspace: MixedC2cWorkspace<R, N, M>,
        execute: &X,
    ) -> (result: ((Vec<PencilArray<Complex<R>, N, M>>, MixedC2cWorkspace<R, N, M>), Result<(), CollectionError<MixedError>>))
        requires
            self.core.wf(),
            peers_answer(*peers),
            forall|index: usize, source: &PencilArray<Complex<R>, N, M>, array: PencilArray<Complex<R>, N, M>, workspace: MixedC2cWorkspace<R, N, M>| #[trigger]
                execute.requires((index, source, array, workspace)),
        ensures
            many_done(
                *peers,
                (ManyCall {
                    family: PlanFamily::MixedC2c,
                    direction: Direction::Inverse,
                    in_place: false,
                    sources: sources.len(),
                    destinations: destinations.len(),
                }),
                self.core.descriptor,
                mixed_c2c_verdicts(
                    self.core,
                    Direction::Inverse,
                    sources@,
                    destinations@,
                    workspace,
                ),
                (Paired { sources, execute, arrays: destinations.len() }),
                (destinations, workspace),
                result.0,
                result.1,
            ),
    {
        let verdicts = judge_mixed_c2c(
            &self.core,
            Direction::Inverse,
            sources,
            &destinations,
            &workspace,
        );
        let members = Paired { sources, execute, arrays: destinations.len() };
        let call = ManyCall {
            family: PlanFamily::MixedC2c,
            direction: Direction::Inverse,
            in_place: false,
            sources: sources.len(),
            destinations: destinations.len(),
        };
        run_many(
            peers,
            call,
            &self.core.descriptor,
            &verdicts,
            &members,
            (destinations, workspace),
        )
    }

    /// Executes the way back without normalization for each source in order, with one workspace. All
    /// members are checked before the first is executed.
    pub fn backward_many<H: Fn([u64; 5]) -> bool, D: Fn(u64, &Vec<u64>) -> Result<(), FftError>, A: Fn(bool) -> bool, X: Fn(usize, &PencilArray<Complex<R>, N, M>, PencilArray<Complex<R>, N, M>, MixedC2cWorkspace<R, N, M>) -> ((PencilArray<Complex<R>, N, M>, MixedC2cWorkspace<R, N, M>), Result<(), MixedError>)>(
        &self,
        peers: &Peers<H, D, A>,
        sources: &Vec<PencilArray<Complex<R>, N, M>>,
        destinations: Vec<PencilArray<Complex<R>, N, M>>,
        workspace: MixedC2cWorkspace<R, N, M>,
        execute: &X,
    ) -> (result: ((Vec<PencilArray<Complex<R>, N, M>>, MixedC2cWorkspace<R, N, M>), Result<(), CollectionError<MixedError>>))
        requires
            self.core.wf(),
            peers_answer(*peers),
            forall|index: usize, source: &PencilArray<Complex<R>, N, M>, array: PencilArray<Complex<R>, N, M>, workspace: MixedC2cWorkspace<R, N, M>| #[trigger]
                execute.requires((index, source, array, workspace)),
        ensures
            many_done(
                *peers,
                (ManyCall {
                    family: PlanFamily::MixedC2c,
                    direction: Direction::Backward,
                    in_place: false,
                    sources: sources.len(),
                    destinations: destinations.len(),
                }),
                self.core.descriptor,
                mixed_c2c_verdicts(
                    self.core,
                    Direction::Backward,
                    sources@,
                    destinations@,
                    workspace,
                ),
                (Paired { sources, execute, arrays: destinations.len() }),
                (destinations, workspace),
                result.0,
                result.1,
            ),
    {
        let verdicts = judge_mixed_c2c(
            &self.core,
            Direction::Backward,
            sources,
            &destinations,
            &workspace,
        );
        let members = Paired { sources, execute, arrays: destinations.len() };
        let call = ManyCall {
            family: PlanFamily::MixedC2c,
            direction: Direction::Backward,
            in_place: false,
            sources: sources.len(),
            destinations: destinations.len(),
        };
        run_many(
            peers,
            call,
            &self.core.descriptor,
            &verdicts,
            &members,
            (destinations, workspace),
        )
    }

    /// Executes the unnormalized transform in each array in order, with one workspace. All
    /// members are checked before the first is executed.
    pub fn forward_many_in_place<H: Fn([u64; 5]) -> bool, D: Fn(u64, &Vec<u64>) -> Result<(), FftError>, A: Fn(bool) -> bool, X: Fn(usize, MixedC2cInPlaceArray<R, N, M>, MixedC2cInPlaceWorkspace<R, N, M>) -> ((MixedC2cInPlaceArray<R, N, M>, MixedC2cInPlaceWorkspace<R, N, M>), Result<(), MixedError>)>(
        &self,
        peers: &Peers<H, D, A>,
        arrays: Vec<MixedC2cInPlaceArray<R, N, M>>,
        workspace: MixedC2cInPlaceWorkspace<R, N, M>,
        execute: &X,
    ) -> (result: ((Vec<MixedC2cInPlaceArray<R, N, M>>, MixedC2cInPlaceWorkspace<R, N, M>), Result<(), CollectionError<MixedError>>))
        requires
            self.core.wf(),
            peers_answer(*peers),
            forall|index: usize, array: MixedC2cInPlaceArray<R, N, M>, workspace: MixedC2cInPlaceWorkspace<R, N, M>| #[trigger]
                execute.requires((index, array, workspace)),
        ensures
            many_done(
                *peers,
                (ManyCall {
                    family: PlanFamily::MixedC2c,
                    direction: Direction::Forward,
                    in_place: true,
                    sources: arrays.len(),
                    destinations: arrays.len(),
                }),
                self.core.descriptor,
                mixed_c2c_in_place_verdicts(self.core, Direction::Forward, arrays@, workspace),
                (Single { execute, arrays: arrays.len() }),
                (arrays, workspace),
                result.0,
                result.1,
            ),
    {
        let verdicts = judge_mixed_c2c_in_place(
            &self.core,
            Direction::Forward,
            &arrays,
            &workspace,
        );
        let members = Single { execute, arrays: arrays.len() };
        let call = ManyCall {
            family: PlanFamily::MixedC2c,
            direction: Direction::Forward,
            in_place: true,
            sources: arrays.len(),
            destinations: arrays.len(),
        };
        run_many(
            peers,
            call,
            &self.core.descriptor,
            &verdicts,
            &members,
            (arrays, workspace),
        )
    }

    /// Executes the normalized way back in each array in order, with one workspace. All
    /// members are checked before the first is executed.
    pub fn inverse_many_in_place<H: Fn([u64; 5]) -> bool, D: Fn(u64, &Vec<u64>) -> Result<(), FftError>, A: Fn(bool) -> bool, X: Fn(usize, MixedC2cInPlaceArray<R, N, M>, MixedC2cInPlaceWorkspace<R, N, M>) -> ((MixedC2cInPlaceArray<R, N, M>, MixedC2cInPlaceWorkspace<R, N, M>), Result<(), MixedError>)>(
        &self,
        peers: &Peers<H, D, A>,
        arrays: Vec<MixedC2cInPlaceArray<R, N, M>>,
        workspace: MixedC2cInPlaceWorkspace<R, N, M>,
        execute: &X,
    ) -> (result: ((Vec<MixedC2cInPlaceArray<R, N, M>>, MixedC2cInPlaceWorkspace<R, N, M>), Result<(), CollectionError<MixedError>>))
        requires
            self.core.wf(),
            peers_answer(*peers),
            forall|index: usize, array: MixedC2cInPlaceArray<R, N, M>, workspace: MixedC2cInPlaceWorkspace<R, N, M>| #[trigger]
                execute.requires((index, array, workspace)),
        ensures
            many_done(
                *peers,
                (ManyCall {
                    family: PlanFamily::MixedC2c,
                    direction: Direction::Inverse,
                    in_place: true,
                    sources: arrays.len(),
                    destinations: arrays.len(),
                }),
                self.core.descriptor,
                mixed_c2c_in_place_verdicts(self.core, Direction::Inverse, arrays@, workspace),
                (Single { execute, arrays: arrays.len() }),
                (arrays, workspace),
                result.0,
                result.1,
            ),
    {
        let verdicts = judge_mixed_c2c_in_place(
            &self.core,
            Direction::Inverse,
            &arrays,
            &workspace,
        );
        let members = Single { execute, arrays: arrays.len() };
        let call = ManyCall {
            family: PlanFamily::MixedC2c,
            direction: Direction::Inverse,
            in_place: true,
            sources: arrays.len(),
            destinations: arrays.len(),
        };
        run_many(
            peers,
            call,
            &self.core.descriptor,
            &verdicts,
            &members,
            (arrays, workspace),
        )
    }

    /// Executes the way back without normalization in each array in order, with one workspace. All
    /// members are checked before the first is executed.
    pub fn backward_many_in_place<H: Fn([u64; 5]) -> bool, D: Fn(u64, &Vec<u64>) -> Result<(), FftError>, A: Fn(bool) -> bool, X: Fn(usize, MixedC2cInPlaceArray<R, N, M>, MixedC2cInPlaceWorkspace<R, N, M>) -> ((MixedC2cInPlaceArray<R, N, M>, MixedC2cInPlaceWorkspace<R, N, M>), Result<(), MixedError>)>(
        &self,
        peers: &Peers<H, D, A>,
        arrays: Vec<MixedC2cInPlaceArray<R, N, M>>,
        workspace: MixedC2cInPlaceWorkspace<R, N, M>,
        execute: &X,
    ) -> (result: ((Vec<MixedC2cInPlaceArray<R, N, M>>, MixedC2cInPlaceWorkspace<R, N, M>), Result<(), CollectionError<MixedError>>))
        requires
            self.core.wf(),
            peers_answer(*peers),
            forall|index: usize, array: MixedC2cInPlaceArray<R, N, M>, workspace: MixedC2cInPlaceWorkspace<R, N, M>| #[trigger]
                execute.requires((index, array, workspace)),
        ensures
            many_done(
                *peers,
                (ManyCall {
                    family: PlanFamily::MixedC2c,
                    direction: Direction::Backward,
                    in_place: true,
                    sources: arrays.len(),
                    destinations: arrays.len(),
                }),
                self.core.descriptor,
                mixed_c2c_in_place_verdicts(self.core, Direction::Backward, arrays@, workspace),
                (Single { execute, arrays: arrays.len() }),
                (arrays, workspace),
                result.0,
                result.1,
            ),
    {
        let verdicts = judge_mixed_c2c_in_place(
            &self.core,
            Direction::Backward,
            &arrays,
            &workspace,
        );
        let members = Single { execute, arrays: arrays.len() };
        let call = ManyCall {
            family: PlanFamily::MixedC2c,
            direction: Direction::Backward,
            in_place: true,
            sources: arrays.len(),
            destinations: arrays.len(),
        };
        run_many(
            peers,
            call,
            &self.core.descriptor,
            &verdicts,
            &members,
            (arrays, workspace),
        )
    }
}

impl<R: FftReal, const N: usize, const M: usize> MixedR2cPlan<R, N, M> {
    /// Executes the unnormalized transform for each source in order, with one workspace. All
    /// members are checked before the first is executed.
    pub fn forward_many<H: Fn([u64; 5]) -> bool, D: Fn(u64, &Vec<u64>) -> Result<(), FftError>, A: Fn(bool) -> bool, X: Fn(usize, &PencilArray<R, N, M>, PencilArray<Complex<R>, N, M>, MixedR2cWorkspace<R, N, M>) -> ((PencilArray<Complex<R>, N, M>, MixedR2cWorkspace<R, N, M>), Result<(), MixedError>)>(
        &self,
        peers: &Peers<H, D, A>,
        sources: &Vec<PencilArray<R, N, M>>,
        destinations: Vec<PencilArray<Complex<R>, N, M>>,
        workspace: MixedR2cWorkspace<R, N, M>,
        execute: &X,
    ) -> (result: ((Vec<PencilArray<Complex<R>, N, M>>, MixedR2cWorkspace<R, N, M>), Result<(), CollectionError<MixedError>>))
        requires
            self.core.wf(),
            peers_answer(*peers),
            forall|index: usize, source: &PencilArray<R, N, M>, array: PencilArray<Complex<R>, N, M>, workspace: MixedR2cWorkspace<R, N, M>| #[trigger]
                execute.requires((index, source, array, workspace)),
        ensures
            many_done(
                *peers,
                (ManyCall {
                    family: PlanFamily::MixedR2c,
                    direction: Direction::Forward,
                    in_place: false,
                    sources: sources.len(),
                    destinations: destinations.len(),
                }),
                self.core.descriptor,
                mixed_r2c_verdicts(
                    self.core,
                    Direction::Forward,
                    sources@,
                    destinations@,
                    workspace,
                ),
                (Paired { sources, execute, arrays: destinations.len() }),
                (destinations, workspace),
                result.0,
                result.1,
            ),
    {
        let verdicts = judge_mixed_r2c(
            &self.core,
            Direction::Forward,
            sources,
            &destinations,
            &workspace,
        );
        let members = Paired { sources, execute, arrays: destinations.len() };
        let call = ManyCall {
            family: PlanFamily::MixedR2c,
            direction: Direction::Forward,
            in_place: false,
            sources: sources.len(),
            destinations: destinations.len(),
        };
        run_many(
            peers,
            call,
            &self.core.descriptor,
            &verdicts,
            &members,
            (destinations, workspace),
        )
    }

    /// Executes the normalized way back for each source in order, with one workspace. All
    /// members are checked before the first is executed.
    pub fn inverse_many<H: Fn([u64; 5]) -> bool, D: Fn(u64, &Vec<u64>) -> Result<(), FftError>, A: Fn(bool) -> bool, X: Fn(usize, &PencilArray<Complex<R>, N, M>, PencilArray<R, N, M>, MixedR2cWorkspace<R, N, M>) -> ((PencilArray<R, N, M>, MixedR2cWorkspace<R, N, M>), Result<(), MixedError>)>(
        &self,
        peers: &Peers<H, D, A>,
        sources: &Vec<PencilArray<Complex<R>, N, M>>,
        destinations: Vec<PencilArray<R, N, M>>,
        workspace: MixedR2cWorkspace<R, N, M>,
        execute: &X,
    ) -> (result: ((Vec<PencilArray<R, N, M>>, MixedR2cWorkspace<R, N, M>), Result<(), CollectionError<MixedError>>))
        requires
            self.core.wf(),
            peers_answer(*peers),
            forall|index: usize, source: &PencilArray<Complex<R>, N, M>, array: PencilArray<R, N, M>, workspace: MixedR2cWorkspace<R, N, M>| #[trigger]
                execute.requires((index, source, array, workspace)),
        ensures
            many_done(
                *peers,
                (ManyCall {
                    family: PlanFamily::MixedR2c,
                    direction: Direction::Inverse,
                    in_place: false,
                    sources: sources.len(),
                    destinations: destinations.len(),
                }),
                self.core.descriptor,
                mixed_r2c_verdicts(
                    self.core,
                    Direction::Inverse,
                    sources@,
                    destinations@,
                    workspace,
                ),
                (Paired { sources, execute, arrays: destinations.len() }),
                (destinations, workspace),
                result.0,
                result.1,
            ),
    {
        let verdicts = judge_mixed_r2c(
            &self.core,
            Direction::Inverse,
            sources,
            &destinations,
            &workspace,
        );
        let members = Paired { sources, execute, arrays: destinations.len() };
        let call = ManyCall {
            family: PlanFamily::MixedR2c,
            direction: Direction::Inverse,
            in_place: false,
            sources: sources.len(),
            destinations: destinations.len(),
        };
        run_many(
            peers,
            call,
            &self.core.descriptor,
            &verdicts,
            &members,
            (destinations, workspace),
        )
    }

    /// Executes the way back without normalization for each source in order, with one workspace. All
    /// members are checked before the first is executed.
    pub fn backward_many<H: Fn([u64; 5]) -> bool, D: Fn(u64, &Vec<u64>) -> Result<(), FftError>, A: Fn(bool) -> bool, X: Fn(usize, &PencilArray<Complex<R>, N, M>, PencilArray<R, N, M>, MixedR2cWorkspace<R, N, M>) -> ((PencilArray<R, N, M>, MixedR2cWorkspace<R, N, M>), Result<(), MixedError>)>(
        &self,
        peers: &Peers<H, D, A>,
        sources: &Vec<PencilArray<Complex<R>, N, M>>,
        destinations: Vec<PencilArray<R, N, M>>,
        workspace: MixedR2cWorkspace<R, N, M>,
        execute: &X,
    ) -> (result: ((Vec<PencilArray<R, N, M>>, MixedR2cWorkspace<R, N, M>), Result<(), CollectionError<MixedError>>))
        requires
            self.core.wf(),
            peers_answer(*peers),
            forall|index: usize, source: &PencilArray<Complex<R>, N, M>, array: PencilArray<R, N, M>, workspace: MixedR2cWorkspace<R, N, M>| #[trigger]
                execute.requires((index, source, array, workspace)),
        ensures
            many_done(
                *peers,
                (ManyCall {
                    family: PlanFamily::MixedR2c,
                    direction: Direction::Backward,
                    in_place: false,
                    sources: sources.len(),
                    destinations: destinations.len(),
                }),
                self.core.descriptor,
                mixed_r2c_verdicts(
                    self.core,
                    Direction::Backward,
                    sources@,
                    destinations@,
                    workspace,
                ),
                (Paired { sources, execute, arrays: destinations.len() }),
                (destinations, workspace),
                result.0,
                result.1,
            ),
    {
        let verdicts = judge_mixed_r2c(
            &self.core,
            Direction::Backward,
            sources,
            &destinations,
            &workspace,
        );
        let members = Paired { sources, execute, arrays: destinations.len() };
        let call = ManyCall {
            family: PlanFamily::MixedR2c,
            direction: Direction::Backward,
            in_place: false,
            sources: sources.len(),
            destinations: destinations.len(),
        };
        run_many(
            peers,
            call,
            &self.core.descriptor,
            &verdicts,
            &members,
            (destinations, workspace),
        )
    }

    /// Executes the unnormalized transform in each array in order, with one workspace. All
    /// members are checked before the first is executed.
    pub fn forward_many_in_place<H: Fn([u64; 5]) -> bool, D: Fn(u64, &Vec<u64>) -> Result<(), FftError>, A: Fn(bool) -> bool, X: Fn(usize, MixedR2cInPlaceArray<R, N, M>, MixedR2cInPlaceWorkspace<R, N, M>) -> ((MixedR2cInPlaceArray<R, N, M>, MixedR2cInPlaceWorkspace<R, N, M>), Result<(), MixedError>)>(
        &self,
        peers: &Peers<H, D, A>,
        arrays: Vec<MixedR2cInPlaceArray<R, N, M>>,
        workspace: MixedR2cInPlaceWorkspace<R, N, M>,
        execute: &X,
    ) -> (result: ((Vec<MixedR2cInPlaceArray<R, N, M>>, MixedR2cInPlaceWorkspace<R, N, M>), Result<(), CollectionError<MixedError>>))
        requires
            self.core.wf(),
            peers_answer(*peers),
            forall|index: usize, array: MixedR2cInPlaceArray<R, N, M>, workspace: MixedR2cInPlaceWorkspace<R, N, M>| #[trigger]
                execute.requires((index, array, workspace)),
        ensures
            exists|found: Seq<Result<(), MixedError>>|
                {
                    &&& #[trigger] mixed_r2c_all_judged(
                        self.core,
                        Direction::Forward,
                        arrays@,
                        workspace,
                        found,
                    )
                    &&& many_done(
                        *peers,
                        (ManyCall {
                            family: PlanFamily::MixedR2c,
                            direction: Direction::Forward,
                            in_place: true,
                            sources: arrays.len(),
                            destinations: arrays.len(),
                        }),
                        self.core.descriptor,
                        found,
                        (Single { execute, arrays: arrays.len() }),
                        (arrays, workspace),
                        result.0,
                        result.1,
                    )
                },
    {
        let verdicts = judge_mixed_r2c_in_place(
            &self.core,
            Direction::Forward,
            &arrays,
            &workspace,
        );
        let members = Single { execute, arrays: arrays.len() };
        let call = ManyCall {
            family: PlanFamily::MixedR2c,
            direction: Direction::Forward,
            in_place: true,
            sources: arrays.len(),
            destinations: arrays.len(),
        };
        run_many(
            peers,
            call,
            &self.core.descriptor,
            &verdicts,
            &members,
            (arrays, workspace),
        )
    }

    /// Executes the normalized way back in each array in order, with one workspace. All
    /// members are checked before the first is executed.
    pub fn inverse_many_in_place<H: Fn([u64; 5]) -> bool, D: Fn(u64, &Vec<u64>) -> Result<(), FftError>, A: Fn(bool) -> bool, X: Fn(usize, MixedR2cInPlaceArray<R, N, M>, MixedR2cInPlaceWorkspace<R, N, M>) -> ((MixedR2cInPlaceArray<R, N, M>, MixedR2cInPlaceWorkspace<R, N, M>), Result<(), MixedError>)>(
        &self,
        peers: &Peers<H, D, A>,
        arrays: Vec<MixedR2cInPlaceArray<R, N, M>>,
        workspace: MixedR2cInPlaceWorkspace<R, N, M>,
        execute: &X,
    ) -> (result: ((Vec<MixedR2cInPlaceArray<R, N, M>>, MixedR2cInPlaceWorkspace<R, N, M>), Result<(), CollectionError<MixedError>>))
        requires
            self.core.wf(),
            peers_answer(*peers),
            forall|index: usize, array: MixedR2cInPlaceArray<R, N, M>, workspace: MixedR2cInPlaceWorkspace<R, N, M>| #[trigger]
                execute.requires((index, array, workspace)),
        ensures
            exists|found: Seq<Result<(), MixedError>>|
                {
                    &&& #[trigger] mixed_r2c_all_judged(
                        self.core,
                        Direction::Inverse,
                        arrays@,
                        workspace,
                        found,
                    )
                    &&& many_done(
                        *peers,
                        (ManyCall {
                            family: PlanFamily::MixedR2c,
                            direction: Direction::Inverse,
                            in_place: true,
                            sources: arrays.len(),
                            destinations: arrays.len(),
                        }),
                        self.core.descriptor,
                        found,
                        (Single { execute, arrays: arrays.len() }),
                        (arrays, workspace),
                        result.0,
                        result.1,
                    )
                },
    {
        let verdicts = judge_mixed_r2c_in_place(
            &self.core,
            Direction::Inverse,
            &arrays,
            &workspace,
        );
        let members = Single { execute, arrays: arrays.len() };
        let call = ManyCall {
            family: PlanFamily::MixedR2c,
            direction: Direction::Inverse,
            in_place: true,
            sources: arrays.len(),
            destinations: arrays.len(),
        };
        run_many(
            peers,
            call,
            &self.core.descriptor,
            &verdicts,
            &members,
            (arrays, workspace),
        )
    }

    /// Executes the way back without normalization in each array in order, with one workspace. All
    /// members are checked before the first is executed.
    pub fn backward_many_in_place<H: Fn([u64; 5]) -> bool, D: Fn(u64, &Vec<u64>) -> Result<(), FftError>, A: Fn(bool) -> bool, X: Fn(usize, MixedR2cInPlaceArray<R, N, M>, MixedR2cInPlaceWorkspace<R, N, M>) -> ((MixedR2cInPlaceArray<R, N, M>, MixedR2cInPlaceWorkspace<R, N, M>), Result<(), MixedError>)>(
        &self,
        peers: &Peers<H, D, A>,
        arrays: Vec<MixedR2cInPlaceArray<R, N, M>>,
        workspace: MixedR2cInPlaceWorkspace<R, N, M>,
        execute: &X,
    ) -> (result: ((Vec<MixedR2cInPlaceArray<R, N, M>>, MixedR2cInPlaceWorkspace<R, N, M>), Result<(), CollectionError<MixedError>>))
        requires
            self.core.wf(),
            peers_answer(*peers),
            forall|index: usize, array: MixedR2cInPlaceArray<R, N, M>, workspace: MixedR2cInPlaceWorkspace<R, N, M>| #[trigger]
                execute.requires((index, array, workspace)),
        ensures
            exists|found: Seq<Result<(), MixedError>>|
                {
                    &&& #[trigger] mixed_r2c_all_judged(
                        self.core,
                        Direction::Backward,
                        arrays@,
                        workspace,
                        found,
                    )
                    &&& many_done(
                        *peers,
                        (ManyCall {
                            family: PlanFamily::MixedR2c,
                            direction: Direction::Backward,
                            in_place: true,
                            sources: arrays.len(),
                            destinations: arrays.len(),
                        }),
                        self.core.descriptor,
                        found,
                        (Single { execute, arrays: arrays.len() }),
                        (arrays, workspace),
                        result.0,
                        result.1,
                    )
                },
    {
        let verdicts = judge_mixed_r2c_in_place(
            &self.core,
            Direction::Backward,
            &arrays,
            &workspace,
        );
        let members = Single { execute, arrays: arrays.len() };
        let call = ManyCall {
            family: PlanFamily::MixedR2c,
            direction: Direction::Backward,
            in_place: true,
            sources: arrays.len(),
            destinations: arrays.len(),
        };
        run_many(
            peers,
            call,
            &self.core.descriptor,
            &verdicts,
            &members,
            (arrays, workspace),
        )
    }
}

} // verus!
