//! What is told of steps that cannot be done, of methods, and of allocations.

use vstd::prelude::*;

use crate::error::Failure;
use crate::error::FftError;
use crate::half_carrier::misplaced;
use crate::layout::Direction;
use crate::layout::TransposeMethod;
use crate::local::LocalR2cPlan;
use crate::many::shorter_len;
use crate::perform::missing_array;
use crate::perform::unknown_step;
use crate::registry::Stage;
use crate::storage::recast_fits;
use crate::storage::storage_needs;
use crate::storage::strided_phase_of;
use crate::storage::StridedPhase;
use crate::transition::move_by;
use crate::transition::Transition;
use crate::words::operation_word_of;
use crate::words::Operation;
use crate::words::PlanFamily;

verus! {

/// A step that a crew does not know fails as one that was not prepared; one whose array is missing
/// fails over the workspace, and one whose values lie on the wrong side fails over the storage.
pub proof fn law_step_faults<E: Failure>(outcome: Result<(), E>)
    ensures
        unknown_step(outcome) <==> outcome == Err::<(), E>(E::spec_of_fft(FftError::PreparationFailed)),
        missing_array(outcome) <==> outcome == Err::<(), E>(E::spec_of_fft(FftError::WorkspaceMismatch)),
        misplaced(outcome) <==> outcome == Err::<(), E>(
            E::spec_of_fft(FftError::StorageLayoutMismatch),
        ),
{
}

/// Exchanges that go by a method never go by the other one, in either direction, and those that
/// stay in a process go by both.
pub proof fn law_moves_by_method(transitions: Seq<Transition>, i: int)
    requires
        0 <= i < transitions.len(),
    ensures
        move_by(transitions, TransposeMethod::PointToPoint) ==> !(transitions[i].forward is AllToAllv) && !(
        transitions[i].backward is AllToAllv),
        move_by(transitions, TransposeMethod::AllToAllv) ==> !(transitions[i].forward is PointToPoint) && !(
        transitions[i].backward is PointToPoint),
        (forall|j: int|
            0 <= j < transitions.len() ==> !((#[trigger] transitions[j]).forward is AllToAllv) && !(
            transitions[j].backward is AllToAllv)) ==> move_by(transitions, TransposeMethod::PointToPoint),
        (forall|j: int|
            0 <= j < transitions.len() ==> !((#[trigger] transitions[j]).forward is PointToPoint) && !(
            transitions[j].backward is PointToPoint)) ==> move_by(transitions, TransposeMethod::AllToAllv),
{
    assert(transitions[i].spec_along(Direction::Forward) == transitions[i].forward);
    assert(transitions[i].spec_along(Direction::Backward) == transitions[i].backward);
}

/// An allocation is recast only between elements that are aligned alike, where it holds a whole
/// number of the new elements and at least the bytes that are asked for.
pub proof fn law_recast_fits(
    source_size: int,
    source_align: int,
    target_size: int,
    target_align: int,
    capacity: int,
    required_bytes: int,
) -> (count: int)
    ensures
        recast_fits(source_size, source_align, target_size, target_align, capacity, required_bytes) ==> {
            &&& source_align == target_align
            &&& source_size > 0
            &&& target_size > 0
            &&& capacity * source_size == count * target_size
            &&& required_bytes <= count * target_size <= isize::MAX
        },
        forall|whole: int|
            source_align == target_align && source_size > 0 && target_size > 0 && capacity * source_size
                == #[trigger] (whole * target_size) && required_bytes <= whole * target_size <= isize::MAX
                ==> recast_fits(
                source_size,
                source_align,
                target_size,
                target_align,
                capacity,
                required_bytes,
            ),
{
    let bytes = capacity * source_size;
    if target_size > 0 {
        vstd::arithmetic::div_mod::lemma_fundamental_div_mod(bytes, target_size);
        assert forall|whole: int|
            source_align == target_align && source_size > 0 && target_size > 0 && capacity * source_size
                == #[trigger] (whole * target_size) && required_bytes <= whole * target_size
                <= isize::MAX implies recast_fits(
            source_size,
            source_align,
            target_size,
            target_align,
            capacity,
            required_bytes,
        ) by {
            vstd::arithmetic::div_mod::lemma_mod_multiples_basic(whole, target_size);
        }
        let count = bytes / target_size;
        if bytes % target_size == 0 {
            assert(bytes == count * target_size) by (nonlinear_arith)
                requires
                    bytes == target_size * count + bytes % target_size,
                    bytes % target_size == 0,
            ;
        }
        count
    } else {
        0
    }
}

/// The lines of a boundary come in blocks only where they do not lie in one piece. The blocks hold
/// them all, and the spans are the values of all lines, before and behind.
pub proof fn law_strided_phase<const N: usize, const M: usize>(
    stages: Seq<Stage<N, M>>,
    boundary: usize,
    plan: LocalR2cPlan,
    extra: usize,
    scalar_bytes: int,
)
    requires
        plan.real_len > 0,
    ensures
        ({
            let stage = stages[boundary as int];
            let stride = stage.input.stride_along(stage.axis as int);
            let rows = stage.input.local_len as int / plan.real_len as int * extra;
            let phase = strided_phase_of(stages, Some(boundary), plan, extra as int, scalar_bytes);
            &&& phase == Ok::<Option<StridedPhase>, FftError>(None) <==> (stride matches Some(step) && step
                <= 1)
            &&& phase is Err ==> phase->Err_0 == FftError::PreparationFailed
            &&& phase matches Ok(Some(found)) ==> {
                &&& stride matches Some(step) && step > 1
                &&& stage.input.local_len as int % plan.real_len as int == 0
                &&& found.rows == rows
                &&& found.groups * stride->0 == rows
                &&& found.real_span == rows * plan.real_len
                &&& found.complex_span == rows * plan.complex_len
                &&& rows > 0 ==> (storage_needs(stages, Some(boundary), extra as int, scalar_bytes) matches Some(
                    needs,
                ) && found.real_span <= needs.real_len && found.complex_span <= needs.complex_len)
            }
        }),
{
    let stage = stages[boundary as int];
    let real_len = plan.real_len as int;
    let complex_len = plan.complex_len as int;
    let lines = stage.input.local_len as int / real_len;
    let rows = lines * extra;
    vstd::arithmetic::div_mod::lemma_div_pos_is_pos(stage.input.local_len as int, real_len);
    assert(rows >= 0) by (nonlinear_arith)
        requires
            rows == lines * extra,
            lines >= 0,
            extra >= 0,
    ;
    if let Some(step) = stage.input.stride_along(stage.axis as int) {
        let stride = step as int;
        if stride > 1 {
            let groups = rows / stride;
            vstd::arithmetic::div_mod::lemma_fundamental_div_mod(rows, stride);
            vstd::arithmetic::div_mod::lemma_div_pos_is_pos(rows, stride);
            if rows % stride == 0 {
                assert(groups * stride == rows && groups <= rows) by (nonlinear_arith)
                    requires
                        rows == stride * groups,
                        stride > 1,
                        groups >= 0,
                ;
                assert(groups * real_len * stride == rows * real_len) by (nonlinear_arith)
                    requires
                        rows == stride * groups,
                ;
                assert(groups * complex_len * stride == rows * complex_len) by (nonlinear_arith)
                    requires
                        rows == stride * groups,
                ;
                assert(0 <= rows * real_len && 0 <= rows * complex_len) by (nonlinear_arith)
                    requires
                        rows >= 0,
                        real_len >= 0,
                        complex_len >= 0,
                ;
            }
            assert(rows == 0 ==> rows * real_len == 0 && rows * complex_len == 0) by (nonlinear_arith);
        }
    }
}

/// As many pairs are looked at as there are of both.
pub proof fn law_pairs_looked_at(left: nat, right: nat)
    ensures
        shorter_len(left, right) <= left,
        shorter_len(left, right) <= right,
        shorter_len(left, right) == left || shorter_len(left, right) == right,
{
}

/// The words of the executions of a plan follow that of its construction: forward, inverse and
/// backward out of place, and the same in place; the families follow each other. Measured
/// executions, overlapping ones and those over collections lie in blocks of their own, in the
/// same order.
pub proof fn law_operation_words(family: PlanFamily, direction: Direction, in_place: bool)
    ensures
        ({
            let turn = if direction is Forward {
                0int
            } else if direction is Inverse {
                1
            } else {
                2
            };
            let place = if in_place {
                3int
            } else {
                0
            };
            let run = operation_word_of(Operation::Run { family, direction, in_place });
            let timed = operation_word_of(Operation::Timed { family, direction, in_place });
            let overlap = operation_word_of(Operation::Overlap { family, direction });
            let many = operation_word_of(Operation::Many { direction, in_place });
            let plan = operation_word_of(Operation::Plan { family });
            &&& plan matches Some(first) && first % 7 == 1 && first / 7 + 1 == family.spec_word()
            &&& run matches Some(word) && word == plan->0 + 1 + turn + place
            &&& many matches Some(word) && word == 121 + turn + place
            &&& timed is Some <==> family is R2c || family is MixedC2c || family is MixedR2c
            &&& overlap is Some <==> family is C2c || family is R2c || family is MixedC2c || family is MixedR2c
            &&& family is R2c ==> timed->0 == 79 + turn + place && overlap->0 == 73 + turn
            &&& family is MixedC2c ==> timed->0 == 91 + turn + place && overlap->0 == 85 + turn
            &&& family is MixedR2c ==> timed->0 == 115 + turn + place && overlap->0 == 88 + turn
            &&& family is C2c ==> overlap->0 == 55 + turn
        }),
        PlanFamily::C2c.spec_word() == 1,
        PlanFamily::R2c.spec_word() == 2,
        PlanFamily::R2r.spec_word() == 3,
        PlanFamily::Dht.spec_word() == 4,
        PlanFamily::MixedC2c.spec_word() == 5,
        PlanFamily::MixedR2c.spec_word() == 6,
{
}

} // verus!
