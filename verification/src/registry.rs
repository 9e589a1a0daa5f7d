//! The layouts that an array or a workspace is registered for.

use vstd::prelude::*;

use crate::error::FftError;
use crate::layout::ExtraShape;
use crate::layout::Pencil;
use crate::sweep::larger;
use crate::sweep::max_len;

verus! {

/// Where one stage of a route works.
#[derive(Clone, Copy, Debug)]
pub struct Stage<const N: usize, const M: usize> {
    /// The logical axis that the stage transforms.
    pub axis: usize,
    /// The layout that the stage reads.
    pub input: Pencil<N, M>,
    /// The layout that the stage leaves.
    pub output: Pencil<N, M>,
}

impl<const N: usize, const M: usize> Stage<N, M> {
    /// Both layouts are well formed.
    pub open spec fn wf(&self) -> bool {
        self.input.wf() && self.output.wf()
    }
}

/// All stages are well formed.
pub open spec fn stages_wf<const N: usize, const M: usize>(stages: Seq<Stage<N, M>>) -> bool {
    forall|i: int| 0 <= i < stages.len() ==> (#[trigger] stages[i]).wf()
}

/// The layouts that the stages read.
pub open spec fn inputs_of<const N: usize, const M: usize>(stages: Seq<Stage<N, M>>) -> Seq<
    Pencil<N, M>,
> {
    Seq::new(stages.len(), |i: int| stages[i].input)
}

/// The layouts that the stages leave.
pub open spec fn outputs_of<const N: usize, const M: usize>(stages: Seq<Stage<N, M>>) -> Seq<
    Pencil<N, M>,
> {
    Seq::new(stages.len(), |i: int| stages[i].output)
}

/// A pencil of `pencils` has the layout of `pencil`.
pub open spec fn has_layout<const N: usize, const M: usize>(
    pencils: Seq<Pencil<N, M>>,
    pencil: Pencil<N, M>,
) -> bool {
    exists|i: int| 0 <= i < pencils.len() && (#[trigger] pencils[i]).spec_same_layout(&pencil)
}

/// The first pencil of every layout, in order.
pub open spec fn distinct_layouts<const N: usize, const M: usize>(
    pencils: Seq<Pencil<N, M>>,
) -> Seq<Pencil<N, M>>
    decreases pencils.len(),
{
    if pencils.len() == 0 {
        Seq::empty()
    } else {
        let front = distinct_layouts(pencils.drop_last());
        if has_layout(front, pencils.last()) {
            front
        } else {
            front.push(pencils.last())
        }
    }
}

/// No two pencils have the same layout.
pub open spec fn all_distinct<const N: usize, const M: usize>(pencils: Seq<Pencil<N, M>>) -> bool {
    forall|i: int, j: int|
        #![trigger pencils[i], pencils[j]]
        0 <= i < j < pencils.len() ==> !pencils[i].spec_same_layout(&pencils[j])
}

/// The registered layouts are pairwise different and leave none out.
pub proof fn lemma_distinct_layouts<const N: usize, const M: usize>(pencils: Seq<Pencil<N, M>>)
    ensures
        all_distinct(distinct_layouts(pencils)),
        forall|i: int|
            0 <= i < pencils.len() ==> has_layout(distinct_layouts(pencils), #[trigger] pencils[i]),
        forall|i: int|
            0 <= i < distinct_layouts(pencils).len() ==> pencils.contains(
                #[trigger] distinct_layouts(pencils)[i],
            ),
        distinct_layouts(pencils).len() <= pencils.len(),
        pencils.len() > 0 ==> distinct_layouts(pencils).len() > 0 && distinct_layouts(pencils)[0]
            == pencils[0],
    decreases pencils.len(),
{
    if pencils.len() > 0 {
        let shorter = pencils.drop_last();
        let front = distinct_layouts(shorter);
        let last = pencils.last();
        lemma_distinct_layouts(shorter);
        let whole = distinct_layouts(pencils);
        assert forall|i: int| 0 <= i < pencils.len() implies has_layout(
            whole,
            #[trigger] pencils[i],
        ) by {
            if i < shorter.len() {
                assert(shorter[i] == pencils[i]);
                assert(has_layout(front, shorter[i]));
                let k = choose|k: int|
                    0 <= k < front.len() && (#[trigger] front[k]).spec_same_layout(&shorter[i]);
                assert(whole[k] == front[k]);
            } else if !has_layout(front, last) {
                assert(whole[front.len() as int] == last);
            }
        }
        assert forall|i: int| 0 <= i < whole.len() implies pencils.contains(
            #[trigger] whole[i],
        ) by {
            if i < front.len() {
                assert(shorter.contains(front[i]));
                let k = choose|k: int| 0 <= k < shorter.len() && shorter[k] == front[i];
                assert(pencils[k] == whole[i]);
            } else {
                assert(pencils[pencils.len() - 1] == whole[i]);
            }
        }
        if !has_layout(front, last) {
            assert forall|i: int, j: int|
                #![trigger whole[i], whole[j]]
                0 <= i < j < whole.len() implies !whole[i].spec_same_layout(&whole[j]) by {
                if j < front.len() {
                    assert(whole[i] == front[i] && whole[j] == front[j]);
                } else {
                    assert(whole[i] == front[i]);
                    assert(!front[i].spec_same_layout(&last));
                }
            }
        }
        if shorter.len() == 0 {
            assert(front.len() == 0);
            assert(!has_layout(front, last));
        } else {
            assert(shorter[0] == pencils[0]);
        }
    }
}

/// Asks the allocator for room for exactly `additional` more elements, by
/// `Vec::try_reserve_exact`.
///
/// Claimed: the elements stay as they are. Whether there is room rests on the machine.
#[verifier::external_body]
pub(crate) fn reserve_exact<T>(elements: &mut Vec<T>, additional: usize) -> (granted: bool)
    ensures
        final(elements)@ == old(elements)@,
{
    elements.try_reserve_exact(additional).is_ok()
}

/// Asks for an empty list with room for exactly `count` elements. Whether there is room rests on
/// the machine.
pub fn room_for<T>(count: usize) -> (room: Option<Vec<T>>)
    ensures
        is_empty_room(room),
{
    let mut elements: Vec<T> = Vec::new();
    if reserve_exact(&mut elements, count) {
        Some(elements)
    } else {
        None
    }
}

/// Asks for room as [`room_for`] does, where the list is needed.
pub fn room_where<T>(needed: bool, count: usize) -> (room: Option<Vec<T>>)
    ensures
        is_empty_room(room),
        !needed ==> room is None,
{
    if needed {
        room_for(count)
    } else {
        None
    }
}

/// A list that there is room for holds nothing yet.
pub open spec fn is_empty_room<T>(room: Option<Vec<T>>) -> bool {
    room matches Some(elements) ==> elements@.len() == 0
}

/// Whether a pencil of `pencils` has the layout of `pencil`.
pub fn contains_layout<const N: usize, const M: usize>(
    pencils: &Vec<Pencil<N, M>>,
    pencil: &Pencil<N, M>,
) -> (found: bool)
    ensures
        found == has_layout(pencils@, *pencil),
{
    match find_layout(pencils, pencil) {
        Some(index) => {
            assert(pencils@[index as int].spec_same_layout(pencil));
            true
        },
        None => false,
    }
}

/// Position of the first pencil of `pencils` that has the layout of `pencil`.
pub fn find_layout<const N: usize, const M: usize>(
    pencils: &Vec<Pencil<N, M>>,
    pencil: &Pencil<N, M>,
) -> (found: Option<usize>)
    ensures
        match found {
            Some(index) => {
                &&& index < pencils@.len()
                &&& pencils@[index as int].spec_same_layout(pencil)
                &&& forall|i: int|
                    0 <= i < index ==> !(#[trigger] pencils@[i]).spec_same_layout(pencil)
            },
            None => !has_layout(pencils@, *pencil),
        },
{
    let mut i: usize = 0;
    while i < pencils.len()
        invariant
            i <= pencils@.len(),
            forall|j: int| 0 <= j < i ==> !(#[trigger] pencils@[j]).spec_same_layout(pencil),
        decreases pencils@.len() - i,
    {
        if pencils[i].same_layout(pencil) {
            return Some(i);
        }
        i += 1;
    }
    None
}

/// Registers the first layout of every kind that the stages from `first` on leave, in `room`.
pub fn registered_stage_pencils_in<const N: usize, const M: usize>(
    room: Option<Vec<Pencil<N, M>>>,
    stages: &Vec<Stage<N, M>>,
    first: usize,
) -> (result: Result<Vec<Pencil<N, M>>, FftError>)
    requires
        first <= stages@.len(),
        is_empty_room(room),
    ensures
        match room {
            Some(_) => result matches Ok(pencils) && pencils@ == distinct_layouts(
                outputs_of(stages@.skip(first as int)),
            ),
            None => result == Err::<Vec<Pencil<N, M>>, FftError>(
                FftError::AllocationFailed { required: (stages@.len() - first) as usize },
            ),
        },
{
    let count: usize = stages.len() - first;
    let mut pencils: Vec<Pencil<N, M>> = match room {
        Some(pencils) => pencils,
        None => {
            return Err(FftError::AllocationFailed { required: count });
        },
    };
    assert(pencils@ =~= Seq::<Pencil<N, M>>::empty());
    let ghost all = outputs_of(stages@.skip(first as int));
    let mut i: usize = 0;
    assert(all.take(0) =~= Seq::<Pencil<N, M>>::empty());
    while i < count
        invariant
            first + count == stages@.len() == stages.len(),
            i <= count,
            all == outputs_of(stages@.skip(first as int)),
            all.len() == count,
            pencils@ == distinct_layouts(all.take(i as int)),
        decreases count - i,
    {
        let pencil: Pencil<N, M> = stages[first + i].output;
        proof {
            assert(all[i as int] == pencil);
            assert(all.take(i + 1).drop_last() =~= all.take(i as int));
            assert(all.take(i + 1).last() == pencil);
        }
        if !contains_layout(&pencils, &pencil) {
            pencils.push(pencil);
        }
        i += 1;
    }
    assert(all.take(count as int) =~= all);
    Ok(pencils)
}

/// Registers the first layout of every kind that the stages from `first` on leave. Whether there is
/// room for them rests on the machine; [`registered_stage_pencils_in`] says what follows for each
/// answer.
pub fn registered_stage_pencils<const N: usize, const M: usize>(
    stages: &Vec<Stage<N, M>>,
    first: usize,
) -> (result: Result<Vec<Pencil<N, M>>, FftError>)
    requires
        first <= stages@.len(),
    ensures
        match result {
            Ok(pencils) => pencils@ == distinct_layouts(outputs_of(stages@.skip(first as int))),
            Err(error) => error == (FftError::AllocationFailed {
                required: (stages@.len() - first) as usize,
            }),
        },
{
    let room: Option<Vec<Pencil<N, M>>> = room_for(stages.len() - first);
    registered_stage_pencils_in(room, stages, first)
}

/// Registers the first layout of every kind that the stages up to the boundary read, in `room`.
pub fn registered_real_stage_pencils_in<const N: usize, const M: usize>(
    room: Option<Vec<Pencil<N, M>>>,
    stages: &Vec<Stage<N, M>>,
    boundary: usize,
) -> (result: Result<Vec<Pencil<N, M>>, FftError>)
    requires
        is_empty_room(room),
    ensures
        boundary >= stages@.len() ==> result == Err::<Vec<Pencil<N, M>>, FftError>(
            FftError::PreparationFailed,
        ),
        boundary < stages@.len() ==> match room {
            Some(_) => result matches Ok(pencils) && pencils@ == distinct_layouts(
                inputs_of(stages@.take(boundary + 1)),
            ),
            None => result == Err::<Vec<Pencil<N, M>>, FftError>(
                FftError::AllocationFailed { required: (boundary + 1) as usize },
            ),
        },
{
    if boundary >= stages.len() {
        return Err(FftError::PreparationFailed);
    }
    let count: usize = boundary + 1;
    let mut pencils: Vec<Pencil<N, M>> = match room {
        Some(pencils) => pencils,
        None => {
            return Err(FftError::AllocationFailed { required: count });
        },
    };
    assert(pencils@ =~= Seq::<Pencil<N, M>>::empty());
    let ghost all = inputs_of(stages@.take(count as int));
    let mut i: usize = 0;
    assert(all.take(0) =~= Seq::<Pencil<N, M>>::empty());
    while i < count
        invariant
            i <= count <= stages@.len(),
            all == inputs_of(stages@.take(count as int)),
            all.len() == count,
            pencils@ == distinct_layouts(all.take(i as int)),
        decreases count - i,
    {
        let pencil: Pencil<N, M> = stages[i].input;
        proof {
            assert(all[i as int] == pencil);
            assert(all.take(i + 1).drop_last() =~= all.take(i as int));
            assert(all.take(i + 1).last() == pencil);
        }
        if !contains_layout(&pencils, &pencil) {
            pencils.push(pencil);
        }
        i += 1;
    }
    assert(all.take(count as int) =~= all);
    Ok(pencils)
}

/// Registers the first layout of every kind that the stages up to the boundary read. Whether there
/// is room for them rests on the machine; [`registered_real_stage_pencils_in`] says what follows for
/// each answer.
pub fn registered_real_stage_pencils<const N: usize, const M: usize>(
    stages: &Vec<Stage<N, M>>,
    boundary: usize,
) -> (result: Result<Vec<Pencil<N, M>>, FftError>)
    ensures
        match result {
            Ok(pencils) => boundary < stages@.len() && pencils@ == distinct_layouts(
                inputs_of(stages@.take(boundary + 1)),
            ),
            Err(error) => if boundary >= stages@.len() {
                error == FftError::PreparationFailed
            } else {
                error == (FftError::AllocationFailed { required: (boundary + 1) as usize })
            },
        },
{
    if boundary >= stages.len() {
        return Err(FftError::PreparationFailed);
    }
    let room: Option<Vec<Pencil<N, M>>> = room_for(boundary + 1);
    registered_real_stage_pencils_in(room, stages, boundary)
}

/// Whether every stage of `stages[from..to]` has its input, or its output, registered.
pub fn registered_layout_matches<const N: usize, const M: usize>(
    registered: &Vec<Pencil<N, M>>,
    stages: &Vec<Stage<N, M>>,
    from: usize,
    to: usize,
    use_inputs: bool,
) -> (matches: bool)
    requires
        from <= to <= stages@.len(),
    ensures
        matches == forall|i: int|
            from <= i < to ==> has_layout(
                registered@,
                if use_inputs {
                    (#[trigger] stages@[i]).input
                } else {
                    stages@[i].output
                },
            ),
{
    let mut i: usize = from;
    while i < to
        invariant
            from <= i <= to <= stages@.len(),
            forall|j: int|
                from <= j < i ==> has_layout(
                    registered@,
                    if use_inputs {
                        (#[trigger] stages@[j]).input
                    } else {
                        stages@[j].output
                    },
                ),
        decreases to - i,
    {
        let pencil: Pencil<N, M> = if use_inputs {
            stages[i].input
        } else {
            stages[i].output
        };
        if !contains_layout(registered, &pencil) {
            assert(!has_layout(
                registered@,
                if use_inputs {
                    stages@[i as int].input
                } else {
                    stages@[i as int].output
                },
            ));
            return false;
        }
        i += 1;
    }
    true
}

/// `actual` registers exactly the layouts of `required`, each once, and at least one.
pub open spec fn exact_pencil_list<const N: usize, const M: usize>(
    actual: Seq<Pencil<N, M>>,
    required: Seq<Pencil<N, M>>,
) -> bool {
    &&& actual.len() == required.len()
    &&& actual.len() > 0
    &&& all_distinct(actual)
    &&& all_distinct(required)
    &&& forall|i: int| 0 <= i < actual.len() ==> has_layout(required, #[trigger] actual[i])
    &&& forall|i: int| 0 <= i < required.len() ==> has_layout(actual, #[trigger] required[i])
}

/// Whether no two pencils have the same layout.
pub fn registered_distinct<const N: usize, const M: usize>(pencils: &Vec<Pencil<N, M>>) -> (distinct: bool)
    ensures
        distinct == all_distinct(pencils@),
{
    let mut j: usize = 0;
    while j < pencils.len()
        invariant
            j <= pencils@.len(),
            forall|a: int, b: int|
                #![trigger pencils@[a], pencils@[b]]
                0 <= a < b < j ==> !pencils@[a].spec_same_layout(&pencils@[b]),
        decreases pencils@.len() - j,
    {
        let mut i: usize = 0;
        while i < j
            invariant
                i <= j < pencils@.len(),
                forall|a: int|
                    0 <= a < i ==> !(#[trigger] pencils@[a]).spec_same_layout(&pencils@[j as int]),
            decreases j - i,
        {
            if pencils[i].same_layout(&pencils[j]) {
                assert(pencils@[i as int].spec_same_layout(&pencils@[j as int]));
                return false;
            }
            i += 1;
        }
        j += 1;
    }
    true
}

fn layouts_covered<const N: usize, const M: usize>(
    pencils: &Vec<Pencil<N, M>>,
    by: &Vec<Pencil<N, M>>,
) -> (covered: bool)
    ensures
        covered == forall|i: int|
            0 <= i < pencils@.len() ==> has_layout(by@, #[trigger] pencils@[i]),
{
    let mut i: usize = 0;
    while i < pencils.len()
        invariant
            i <= pencils@.len(),
            forall|j: int| 0 <= j < i ==> has_layout(by@, #[trigger] pencils@[j]),
        decreases pencils@.len() - i,
    {
        if !contains_layout(by, &pencils[i]) {
            assert(!has_layout(by@, pencils@[i as int]));
            return false;
        }
        i += 1;
    }
    true
}

/// Checks that `actual` registers exactly the layouts of `required`.
pub fn validate_exact_pencil_list<const N: usize, const M: usize>(
    actual: &Vec<Pencil<N, M>>,
    required: &Vec<Pencil<N, M>>,
) -> (result: Result<(), FftError>)
    ensures
        result is Ok <==> exact_pencil_list(actual@, required@),
        result is Err ==> result->Err_0 == FftError::WorkspaceMismatch,
{
    if actual.len() != required.len() || actual.len() == 0 || !registered_distinct(actual)
        || !registered_distinct(required) || !layouts_covered(actual, required) || !layouts_covered(
        required,
        actual,
    ) {
        return Err(FftError::WorkspaceMismatch);
    }
    Ok(())
}

/// Elements of the largest local block.
pub open spec fn largest_local_len<const N: usize, const M: usize>(
    pencils: Seq<Pencil<N, M>>,
) -> usize
    decreases pencils.len(),
{
    if pencils.len() == 0 {
        0
    } else {
        larger(largest_local_len(pencils.drop_last()), pencils.last().local_len)
    }
}

/// Every local block fits into the largest.
pub proof fn lemma_largest_local_len<const N: usize, const M: usize>(pencils: Seq<Pencil<N, M>>)
    ensures
        forall|i: int|
            0 <= i < pencils.len() ==> (#[trigger] pencils[i]).local_len <= largest_local_len(
                pencils,
            ),
        pencils.len() > 0 ==> exists|i: int|
            0 <= i < pencils.len() && (#[trigger] pencils[i]).local_len == largest_local_len(
                pencils,
            ),
    decreases pencils.len(),
{
    if pencils.len() > 0 {
        let shorter = pencils.drop_last();
        lemma_largest_local_len(shorter);
        assert forall|i: int| 0 <= i < pencils.len() implies (#[trigger] pencils[i]).local_len
            <= largest_local_len(pencils) by {
            if i < shorter.len() {
                assert(shorter[i] == pencils[i]);
            }
        }
        if pencils.last().local_len == largest_local_len(pencils) {
            assert(pencils[pencils.len() - 1].local_len == largest_local_len(pencils));
        } else {
            let i = choose|i: int|
                0 <= i < shorter.len() && (#[trigger] shorter[i]).local_len == largest_local_len(
                    shorter,
                );
            assert(pencils[i].local_len == largest_local_len(pencils));
        }
    }
}

/// Returns the elements of the largest local block.
pub fn max_local_len<const N: usize, const M: usize>(pencils: &Vec<Pencil<N, M>>) -> (len: usize)
    ensures
        len == largest_local_len(pencils@),
{
    let mut len: usize = 0;
    let mut i: usize = 0;
    assert(pencils@.take(0) =~= Seq::<Pencil<N, M>>::empty());
    while i < pencils.len()
        invariant
            i <= pencils@.len(),
            len == largest_local_len(pencils@.take(i as int)),
        decreases pencils@.len() - i,
    {
        proof {
            assert(pencils@.take(i + 1).drop_last() =~= pencils@.take(i as int));
        }
        len = max_len(len, pencils[i].local_len);
        i += 1;
    }
    assert(pencils@.take(i as int) =~= pencils@);
    len
}

/// What keeps a storage from serving the registered layouts.
pub open spec fn registry_storage_error<const N: usize, const M: usize>(
    storage_len: int,
    required: Seq<Pencil<N, M>>,
    extra: int,
) -> Option<FftError> {
    if required.len() == 0 {
        Some(FftError::WorkspaceMismatch)
    } else if largest_local_len(required) * extra > usize::MAX {
        Some(FftError::PreparationFailed)
    } else if storage_len != largest_local_len(required) * extra {
        Some(FftError::WorkspaceMismatch)
    } else {
        None
    }
}

/// Checks that a storage holds exactly the elements of the largest registered layout.
pub fn validate_registry_storage<const N: usize, const M: usize>(
    storage_len: usize,
    required: &Vec<Pencil<N, M>>,
    extra_shape: &ExtraShape,
) -> (result: Result<(), FftError>)
    ensures
        result is Ok <==> registry_storage_error(
            storage_len as int,
            required@,
            extra_shape.element_count as int,
        ) is None,
        result is Err ==> registry_storage_error(
            storage_len as int,
            required@,
            extra_shape.element_count as int,
        ) == Some(result->Err_0),
{
    if required.len() == 0 {
        return Err(FftError::WorkspaceMismatch);
    }
    match max_local_len(required).checked_mul(extra_shape.element_count) {
        Some(required_len) => {
            if storage_len != required_len {
                return Err(FftError::WorkspaceMismatch);
            }
            Ok(())
        },
        None => Err(FftError::PreparationFailed),
    }
}

/// What keeps a registry from serving a plan.
pub open spec fn pencil_registry_error<const N: usize, const M: usize>(
    actual: Seq<Pencil<N, M>>,
    required: Seq<Pencil<N, M>>,
    active: Pencil<N, M>,
    storage_len: int,
    extra: int,
) -> Option<FftError> {
    if !exact_pencil_list(actual, required) {
        Some(FftError::WorkspaceMismatch)
    } else if registry_storage_error(storage_len, required, extra) is Some {
        registry_storage_error(storage_len, required, extra)
    } else if !has_layout(actual, active) {
        Some(FftError::WorkspaceMismatch)
    } else {
        None
    }
}

/// Checks that a registry has exactly the required layouts, a storage that fits them, and an
/// active layout among them.
pub fn validate_exact_pencil_registry<const N: usize, const M: usize>(
    actual: &Vec<Pencil<N, M>>,
    required: &Vec<Pencil<N, M>>,
    active: &Pencil<N, M>,
    storage_len: usize,
    extra_shape: &ExtraShape,
) -> (result: Result<(), FftError>)
    ensures
        result is Ok <==> pencil_registry_error(
            actual@,
            required@,
            *active,
            storage_len as int,
            extra_shape.element_count as int,
        ) is None,
        result is Err ==> pencil_registry_error(
            actual@,
            required@,
            *active,
            storage_len as int,
            extra_shape.element_count as int,
        ) == Some(result->Err_0),
{
    match validate_exact_pencil_list(actual, required) {
        Ok(_) => {},
        Err(error) => {
            return Err(error);
        },
    }
    match validate_registry_storage(storage_len, required, extra_shape) {
        Ok(_) => {},
        Err(error) => {
            return Err(error);
        },
    }
    if !contains_layout(actual, active) {
        return Err(FftError::WorkspaceMismatch);
    }
    Ok(())
}

/// A registry that a plan registered passes its own check, whichever of its layouts is active.
pub proof fn law_own_registry_accepted<const N: usize, const M: usize>(
    pencils: Seq<Pencil<N, M>>,
    active: Pencil<N, M>,
    extra: int,
)
    requires
        pencils.len() > 0,
        pencils.contains(active),
        largest_local_len(distinct_layouts(pencils)) * extra <= usize::MAX,
    ensures
        pencil_registry_error(
            distinct_layouts(pencils),
            distinct_layouts(pencils),
            active,
            largest_local_len(distinct_layouts(pencils)) * extra,
            extra,
        ) is None,
{
    let registered = distinct_layouts(pencils);
    lemma_distinct_layouts(pencils);
    assert forall|i: int| 0 <= i < registered.len() implies has_layout(
        registered,
        #[trigger] registered[i],
    ) by {
        assert(registered[i].spec_same_layout(&registered[i]));
    }
    let k = choose|k: int| 0 <= k < pencils.len() && pencils[k] == active;
    assert(has_layout(registered, pencils[k]));
}

} // verus!
