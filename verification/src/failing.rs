//! What a stage that fails leaves behind.

use vstd::prelude::*;

use crate::accepted::alike;
use crate::accepted::holds_one;
use crate::along::called;
use crate::along::lane_of;
use crate::along::lemma_called;
use crate::along::lemma_lane;
use crate::array::ManyPencilArray;
use crate::error::Failure;
use crate::layout::Pencil;
use crate::lines::line_at;
use crate::lines::line_fails;
use crate::lines::lines_done;
use crate::registry::has_layout;
use crate::station::entered;
use crate::station::Station;
use crate::sweep::swept;
use crate::sweep::SweepError;
use crate::sweep::SweepLens;

verus! {

/// The kernel rejected a line with this error.
pub open spec fn rejected<A, B, E, F: Fn(&[A], usize) -> Result<Vec<B>, E>>(
    kernel: F,
    line: Seq<A>,
    len: int,
    error: E,
) -> bool {
    exists|input: &[A], asked: usize| #[trigger]
        kernel.ensures((input, asked), Err(error)) && input@ == line && asked == len
}

proof fn lemma_rejected<A, B, E, F: Fn(&[A], usize) -> Result<Vec<B>, E>>(
    kernel: F,
    line: Seq<A>,
    len: int,
    error: E,
)
    requires
        line_fails::<A, B, E, F>(kernel, line, len, error),
    ensures
        rejected::<A, B, E, F>(kernel, line, len, error),
{
    let (input, asked) = choose|input: &[A], asked: usize|
        input@ == line && asked == len && #[trigger] kernel.ensures((input, asked), Err(error));
    assert(kernel.ensures((input, asked), Err(error)));
}

/// A sweep that fails over a kernel tells the error with which the kernel rejected one of the
/// lines along the axis; the lines in front of it hold what the kernel gave for them, and those
/// behind it are as they were. A sweep that cannot start changes nothing.
pub proof fn law_sweep_failure<A, B, E, F: Fn(&[A], usize) -> Result<Vec<B>, E>>(
    kernel: F,
    stride: Option<usize>,
    source: Seq<A>,
    original: Seq<B>,
    result: Seq<B>,
    line: usize,
    lens: SweepLens,
    failure: SweepError<E>,
) -> (at: (int, int))
    requires
        swept::<A, B, E, F>(kernel, stride, source, original, result, line, lens, Err(failure)),
        source.len() > 0,
    ensures
        failure is Fft ==> result == original,
        failure matches SweepError::Kernel(error) ==> {
            let step = stride->0 as int;
            let rows = source.len() as int / (lens.source_len * step);
            &&& stride is Some
            &&& step <= 1 ==> result == original && rejected::<A, B, E, F>(
                kernel,
                source,
                original.len() as int,
                error,
            )
            &&& step > 1 ==> {
                &&& 0 <= at.0 < rows
                &&& 0 <= at.1 < step
                &&& result.len() == original.len()
                &&& rejected::<A, B, E, F>(
                    kernel,
                    lane_of(source, at.0, at.1, lens.source_len as int, step),
                    lens.result_len as int,
                    error,
                )
                &&& forall|row: int, lane: int|
                    #![trigger lane_of(result, row, lane, lens.result_len as int, step)]
                    0 <= row < rows && 0 <= lane < step ==> if row < at.0 || row == at.0 && lane < at.1 {
                        called::<A, B, E, F>(
                            kernel,
                            lane_of(source, row, lane, lens.source_len as int, step),
                            lane_of(result, row, lane, lens.result_len as int, step),
                        )
                    } else {
                        lane_of(result, row, lane, lens.result_len as int, step) == lane_of(
                            original,
                            row,
                            lane,
                            lens.result_len as int,
                            step,
                        )
                    }
            }
        },
{
    match failure {
        SweepError::Fft(_) => (0, 0),
        SweepError::Kernel(error) => {
            let step = stride->0 as int;
            let source_len = lens.source_len as int;
            let result_len = lens.result_len as int;
            if step <= 1 {
                lemma_rejected::<A, B, E, F>(kernel, source, original.len() as int, error);
                (0, 0)
            } else {
                let rows = source.len() as int / (source_len * step);
                let (block, lane) = choose|block: int, lane: int|
                    0 <= block < rows && 0 <= lane < step && #[trigger] lines_done::<A, B, E, F>(
                        kernel,
                        source,
                        original,
                        result,
                        lens.source_len as nat,
                        lens.result_len as nat,
                        step,
                        rows,
                        block,
                        lane,
                    ) && line_fails::<A, B, E, F>(
                        kernel,
                        line_at(source, block, lane, lens.source_len as nat, step),
                        result_len,
                        error,
                    );
                lemma_lane(source, block, lane, source_len, step);
                lemma_rejected::<A, B, E, F>(
                    kernel,
                    lane_of(source, block, lane, source_len, step),
                    result_len,
                    error,
                );
                assert forall|p: int, q: int|
                    #![trigger lane_of(result, p, q, result_len, step)]
                    0 <= p < rows && 0 <= q < step implies if p < block || p == block && q < lane {
                    called::<A, B, E, F>(
                        kernel,
                        lane_of(source, p, q, source_len, step),
                        lane_of(result, p, q, result_len, step),
                    )
                } else {
                    lane_of(result, p, q, result_len, step) == lane_of(original, p, q, result_len, step)
                } by {
                    lemma_lane(source, p, q, source_len, step);
                    lemma_lane(result, p, q, result_len, step);
                    lemma_lane(original, p, q, result_len, step);
                    assert(line_at(result, p, q, lens.result_len as nat, step) == line_at(
                        result,
                        p,
                        q,
                        lens.result_len as nat,
                        step,
                    ));
                    if p < block || p == block && q < lane {
                        lemma_called::<A, B, E, F>(
                            kernel,
                            line_at(source, p, q, lens.source_len as nat, step),
                            line_at(result, p, q, lens.result_len as nat, step),
                        );
                    }
                }
                (block, lane)
            }
        },
    }
}

/// Values that a stage failed to leave in an array are given up: no layout of it counts any
/// more. An array without the layout is left alone.
pub proof fn law_failed_entry_gives_up<A, B, E: Failure, S: Station<A, B, E>, const N: usize, const M: usize>(
    station: S,
    source: Seq<A>,
    before: ManyPencilArray<B, N, M>,
    after: ManyPencilArray<B, N, M>,
    pencil: Pencil<N, M>,
    line: usize,
    error: E,
)
    requires
        entered::<A, B, E, S, N, M>(station, source, before, after, pencil, line, Err(error)),
    ensures
        after.active is None || after == before && !holds_one(before.pencils@, pencil),
        after.pencils == before.pencils,
{
    if holds_one(before.pencils@, pencil) {
        let j = choose|j: int| 0 <= j < before.pencils@.len() && alike(#[trigger] before.pencils@[j], pencil);
        assert(before.pencils@[j].spec_same_layout(&pencil));
        assert(has_layout(before.pencils@, pencil));
    }
}

} // verus!
