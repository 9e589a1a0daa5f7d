//! Lines of a strided array: where their elements lie, and how a kernel runs over all of them.
//!
//! An array of `count` blocks holds, in each block, `stride` interleaved lines of `len` elements:
//! element `k` of line `(block, lane)` lies at `(block * len + k) * stride + lane`.

use vstd::prelude::*;

verus! {

/// Where element `k` of line `(block, lane)` lies.
pub open spec fn position(block: int, lane: int, k: int, len: int, stride: int) -> int {
    (block * len + k) * stride + lane
}

/// The elements of line `(block, lane)`.
pub open spec fn line_at<T>(data: Seq<T>, block: int, lane: int, len: nat, stride: int) -> Seq<T> {
    Seq::new(len, |k: int| data[position(block, lane, k, len as int, stride)])
}

/// Line `(block, lane)` is visited before line `(other_block, other_lane)`.
pub open spec fn before(block: int, lane: int, other_block: int, other_lane: int) -> bool {
    block < other_block || (block == other_block && lane < other_lane)
}

/// `kernel` may turn the line `source` into the line `result`.
pub open spec fn line_maps<A, B, E, F: Fn(&[A], usize) -> Result<Vec<B>, E>>(
    kernel: F,
    source: Seq<A>,
    result: Seq<B>,
) -> bool {
    exists|input: &[A], len: usize, output: Vec<B>|
        input@ == source && output@ == result && len == result.len()
            && #[trigger] kernel.ensures((input, len), Ok(output))
}

/// `kernel` may reject the line `source`, asked for `result_len` elements, with `error`.
pub open spec fn line_fails<A, B, E, F: Fn(&[A], usize) -> Result<Vec<B>, E>>(
    kernel: F,
    source: Seq<A>,
    result_len: int,
    error: E,
) -> bool {
    exists|input: &[A], len: usize|
        input@ == source && len == result_len && #[trigger] kernel.ensures(
            (input, len),
            Err(error),
        )
}

/// `kernel` may report `error`.
pub open spec fn rejects<A, B, E, F: Fn(&[A], usize) -> Result<Vec<B>, E>>(
    kernel: F,
    error: E,
) -> bool {
    exists|input: &[A], len: usize| #[trigger] kernel.ensures((input, len), Err(error))
}

/// `kernel` can be called on any line, and answers with as many elements as it was asked for.
pub open spec fn line_kernel<A, B, E, F: Fn(&[A], usize) -> Result<Vec<B>, E>>(kernel: F) -> bool {
    &&& forall|input: &[A], len: usize| #[trigger] kernel.requires((input, len))
    &&& forall|input: &[A], len: usize, output: Vec<B>| #[trigger]
        kernel.ensures((input, len), Ok(output)) ==> output@.len() == len
}

/// The kernels of all stages can be called on any line.
pub open spec fn all_kernels<A, B, E, F: Fn(&[A], usize) -> Result<Vec<B>, E>>(
    kernels: Seq<F>,
) -> bool {
    forall|i: int| 0 <= i < kernels.len() ==> line_kernel::<A, B, E, F>(#[trigger] kernels[i])
}

/// Distinct lines, and distinct elements of a line, lie at distinct positions.
pub proof fn lemma_position_unique(
    block: int,
    lane: int,
    k: int,
    other_block: int,
    other_lane: int,
    other_k: int,
    len: int,
    stride: int,
)
    requires
        0 <= lane < stride,
        0 <= other_lane < stride,
        0 <= k < len,
        0 <= other_k < len,
        position(block, lane, k, len, stride) == position(
            other_block,
            other_lane,
            other_k,
            len,
            stride,
        ),
    ensures
        block == other_block,
        lane == other_lane,
        k == other_k,
{
    lemma_quotient_unique(block * len + k, lane, other_block * len + other_k, other_lane, stride);
    lemma_quotient_unique(block, k, other_block, other_k, len);
}

proof fn lemma_quotient_unique(a: int, r: int, b: int, s: int, d: int)
    by (nonlinear_arith)
    requires
        0 <= r < d,
        0 <= s < d,
        a * d + r == b * d + s,
    ensures
        a == b,
        r == s,
{
    assert(a < b ==> a * d + d <= b * d);
    assert(b < a ==> b * d + d <= a * d);
}

/// Every element of every line lies inside the array.
pub proof fn lemma_position_bound(
    block: int,
    lane: int,
    k: int,
    count: int,
    len: int,
    stride: int,
)
    requires
        0 <= block < count,
        0 <= lane < stride,
        0 <= k < len,
    ensures
        0 <= position(block, lane, k, len, stride) < count * len * stride,
        0 <= block * len,
        0 <= block * len + k < count * len,
        block * len + k <= (block * len + k) * stride,
{
    assert(0 <= block * len && block * len + k < count * len) by (nonlinear_arith)
        requires
            0 <= block < count,
            0 <= k < len,
    ;
    let a = block * len + k;
    let n = count * len;
    assert(a <= a * stride && a * stride + lane < n * stride) by (nonlinear_arith)
        requires
            0 <= a < n,
            0 <= lane < stride,
    ;
}

/// Every position inside the array belongs to a line.
pub proof fn lemma_position_cover(index: int, count: int, len: int, stride: int)
    requires
        0 < len,
        0 < stride,
        0 <= index < count * len * stride,
    ensures
        0 <= index / stride / len < count,
        0 <= index % stride < stride,
        0 <= (index / stride) % len < len,
        position(index / stride / len, index % stride, (index / stride) % len, len, stride) == index,
{
    let row = index / stride;
    assert(0 <= index % stride < stride && row * stride + index % stride == index && 0 <= row < count
        * len) by (nonlinear_arith)
        requires
            0 < stride,
            0 <= index < count * len * stride,
            row == index / stride,
    ;
    assert(0 <= row % len < len && (row / len) * len + row % len == row && 0 <= row / len < count)
        by (nonlinear_arith)
        requires
            0 < len,
            0 <= row < count * len,
    ;
}

/// How far a pass over all lines has come: the lines before `(block, lane)` hold results of
/// `kernel`, the others are as they were.
pub open spec fn lines_done<A, B, E, F: Fn(&[A], usize) -> Result<Vec<B>, E>>(
    kernel: F,
    source: Seq<A>,
    original: Seq<B>,
    result: Seq<B>,
    source_len: nat,
    result_len: nat,
    stride: int,
    count: int,
    block: int,
    lane: int,
) -> bool {
    &&& result.len() == original.len()
    &&& forall|p: int, q: int|
        #![trigger line_at(result, p, q, result_len, stride)]
        0 <= p < count && 0 <= q < stride ==> if before(p, q, block, lane) {
            line_maps::<A, B, E, F>(
                kernel,
                line_at(source, p, q, source_len, stride),
                line_at(result, p, q, result_len, stride),
            )
        } else {
            line_at(result, p, q, result_len, stride) == line_at(
                original,
                p,
                q,
                result_len,
                stride,
            )
        }
}

/// Copies line `(block, lane)` of `data` into the front of `line`.
pub fn gather<T: Copy>(
    data: &[T],
    line: &mut Vec<T>,
    block: usize,
    lane: usize,
    len: usize,
    stride: usize,
    count: usize,
)
    requires
        block < count,
        lane < stride,
        count * len * stride <= data@.len(),
        len <= old(line)@.len(),
    ensures
        final(line)@.len() == old(line)@.len(),
        final(line)@.subrange(0, len as int) == line_at(
            data@,
            block as int,
            lane as int,
            len as nat,
            stride as int,
        ),
        final(line)@.subrange(len as int, final(line)@.len() as int) == old(line)@.subrange(
            len as int,
            old(line)@.len() as int,
        ),
{
    let mut k: usize = 0;
    while k < len
        invariant
            k <= len,
            block < count,
            lane < stride,
            count * len * stride <= data@.len() == data.len(),
            len <= line@.len(),
            line@.len() == old(line)@.len(),
            forall|j: int|
                0 <= j < k ==> line@[j] == data@[position(
                    block as int,
                    lane as int,
                    j,
                    len as int,
                    stride as int,
                )],
            forall|j: int| k <= j < line@.len() ==> line@[j] == old(line)@[j],
        decreases len - k,
    {
        proof {
            lemma_position_bound(
                block as int,
                lane as int,
                k as int,
                count as int,
                len as int,
                stride as int,
            );
        }
        let index: usize = (block * len + k) * stride + lane;
        line[k] = data[index];
        k += 1;
    }
    assert(line@.subrange(0, len as int) =~= line_at(
        data@,
        block as int,
        lane as int,
        len as nat,
        stride as int,
    ));
}

/// Writes `line` as line `(block, lane)` of `data` and leaves every other line as it is.
pub fn scatter<T: Copy>(
    data: &mut [T],
    line: &Vec<T>,
    block: usize,
    lane: usize,
    len: usize,
    stride: usize,
    count: usize,
)
    requires
        block < count,
        lane < stride,
        count * len * stride <= old(data)@.len(),
        len == line@.len(),
    ensures
        final(data)@.len() == old(data)@.len(),
        line_at(final(data)@, block as int, lane as int, len as nat, stride as int) == line@,
        forall|i: int|
            #![trigger final(data)@[i]]
            0 <= i < old(data)@.len() && (forall|k: int|
                0 <= k < len ==> i != #[trigger] position(
                    block as int,
                    lane as int,
                    k,
                    len as int,
                    stride as int,
                )) ==> final(data)@[i] == old(data)@[i],
{
    let mut k: usize = 0;
    while k < len
        invariant
            k <= len,
            block < count,
            lane < stride,
            count * len * stride <= data@.len() == data.len(),
            len == line@.len(),
            data@.len() == old(data)@.len(),
            forall|j: int|
                0 <= j < k ==> data@[position(
                    block as int,
                    lane as int,
                    j,
                    len as int,
                    stride as int,
                )] == line@[j],
            forall|i: int|
                #![trigger data@[i]]
                0 <= i < old(data)@.len() && (forall|j: int|
                    0 <= j < len ==> i != #[trigger] position(
                        block as int,
                        lane as int,
                        j,
                        len as int,
                        stride as int,
                    )) ==> data@[i] == old(data)@[i],
        decreases len - k,
    {
        proof {
            lemma_position_bound(
                block as int,
                lane as int,
                k as int,
                count as int,
                len as int,
                stride as int,
            );
            assert forall|j: int| 0 <= j < k implies #[trigger] position(
                block as int,
                lane as int,
                j,
                len as int,
                stride as int,
            ) != position(block as int, lane as int, k as int, len as int, stride as int)
                && 0 <= position(block as int, lane as int, j, len as int, stride as int)
                < data@.len() by {
                lemma_position_bound(
                    block as int,
                    lane as int,
                    j,
                    count as int,
                    len as int,
                    stride as int,
                );
                if position(block as int, lane as int, j, len as int, stride as int) == position(
                    block as int,
                    lane as int,
                    k as int,
                    len as int,
                    stride as int,
                ) {
                    lemma_position_unique(
                        block as int,
                        lane as int,
                        j,
                        block as int,
                        lane as int,
                        k as int,
                        len as int,
                        stride as int,
                    );
                }
            }
        }
        let index: usize = (block * len + k) * stride + lane;
        data[index] = line[k];
        k += 1;
    }
    assert(line_at(data@, block as int, lane as int, len as nat, stride as int) =~= line@);
}

/// A line other than `(block, lane)` keeps its elements when only positions of that line changed.
pub proof fn lemma_other_line_unchanged<T>(
    before_write: Seq<T>,
    after_write: Seq<T>,
    block: int,
    lane: int,
    other_block: int,
    other_lane: int,
    len: nat,
    stride: int,
    count: int,
)
    requires
        0 <= block < count,
        0 <= lane < stride,
        0 <= other_block < count,
        0 <= other_lane < stride,
        block != other_block || lane != other_lane,
        count * len * stride <= before_write.len(),
        forall|i: int|
            #![trigger after_write[i]]
            0 <= i < before_write.len() && (forall|k: int|
                0 <= k < len ==> i != #[trigger] position(
                    block,
                    lane,
                    k,
                    len as int,
                    stride,
                )) ==> after_write[i] == before_write[i],
    ensures
        line_at(after_write, other_block, other_lane, len, stride) == line_at(
            before_write,
            other_block,
            other_lane,
            len,
            stride,
        ),
{
    assert forall|k: int| 0 <= k < len implies line_at(
        after_write,
        other_block,
        other_lane,
        len,
        stride,
    )[k] == line_at(before_write, other_block, other_lane, len, stride)[k] by {
        let i = position(other_block, other_lane, k, len as int, stride);
        lemma_position_bound(other_block, other_lane, k, count, len as int, stride);
        assert forall|j: int| 0 <= j < len implies i != #[trigger] position(
            block,
            lane,
            j,
            len as int,
            stride,
        ) by {
            if i == position(block, lane, j, len as int, stride) {
                lemma_position_unique(
                    other_block,
                    other_lane,
                    k,
                    block,
                    lane,
                    j,
                    len as int,
                    stride,
                );
            }
        }
        assert(after_write[i] == before_write[i]);
    }
    assert(line_at(after_write, other_block, other_lane, len, stride) =~= line_at(
        before_write,
        other_block,
        other_lane,
        len,
        stride,
    ));
}

/// Runs `kernel` over every line of `source` and writes each result as the line of the same
/// block and lane of `destination`. It stops at the first line that the kernel rejects.
pub fn transform_lines<A: Copy, B: Copy, E, F: Fn(&[A], usize) -> Result<Vec<B>, E>>(
    kernel: &F,
    source: &[A],
    destination: &mut [B],
    line: &mut Vec<A>,
    source_len: usize,
    result_len: usize,
    stride: usize,
    count: usize,
) -> (result: Result<(), E>)
    requires
        source@.len() == count * source_len * stride,
        old(destination)@.len() == count * result_len * stride,
        source_len <= old(line)@.len(),
        line_kernel::<A, B, E, F>(*kernel),
    ensures
        final(line)@.len() == old(line)@.len(),
        match result {
            Ok(_) => lines_done::<A, B, E, F>(
                *kernel,
                source@,
                old(destination)@,
                final(destination)@,
                source_len as nat,
                result_len as nat,
                stride as int,
                count as int,
                count as int,
                0,
            ),
            Err(error) => exists|block: int, lane: int|
                0 <= block < count && 0 <= lane < stride && #[trigger] lines_done::<A, B, E, F>(
                    *kernel,
                    source@,
                    old(destination)@,
                    final(destination)@,
                    source_len as nat,
                    result_len as nat,
                    stride as int,
                    count as int,
                    block,
                    lane,
                ) && line_fails::<A, B, E, F>(
                    *kernel,
                    line_at(source@, block, lane, source_len as nat, stride as int),
                    result_len as int,
                    error,
                ),
        },
{
    let mut block: usize = 0;
    while block < count
        invariant
            block <= count,
            source@.len() == count * source_len * stride,
            destination@.len() == count * result_len * stride,
            line@.len() == old(line)@.len(),
            source_len <= line@.len(),
            line_kernel::<A, B, E, F>(*kernel),
            lines_done::<A, B, E, F>(
                *kernel,
                source@,
                old(destination)@,
                destination@,
                source_len as nat,
                result_len as nat,
                stride as int,
                count as int,
                block as int,
                0,
            ),
        decreases count - block,
    {
        let mut lane: usize = 0;
        while lane < stride
            invariant
                lane <= stride,
                block < count,
                source@.len() == count * source_len * stride,
                destination@.len() == count * result_len * stride,
                line@.len() == old(line)@.len(),
                source_len <= line@.len(),
                line_kernel::<A, B, E, F>(*kernel),
                lines_done::<A, B, E, F>(
                    *kernel,
                    source@,
                    old(destination)@,
                    destination@,
                    source_len as nat,
                    result_len as nat,
                    stride as int,
                    count as int,
                    block as int,
                    lane as int,
                ),
            decreases stride - lane,
        {
            gather(source, line, block, lane, source_len, stride, count);
            let input: &[A] = vstd::slice::slice_subrange(line.as_slice(), 0, source_len);
            assert(input@ == line_at(
                source@,
                block as int,
                lane as int,
                source_len as nat,
                stride as int,
            ));
            match kernel(input, result_len) {
                Ok(output) => {
                    let ghost earlier = destination@;
                    scatter(destination, &output, block, lane, result_len, stride, count);
                    proof {
                        assert forall|p: int, q: int|
                            #![trigger line_at(destination@, p, q, result_len as nat, stride as int)]
                            0 <= p < count && 0 <= q < stride implies if before(
                            p,
                            q,
                            block as int,
                            lane + 1,
                        ) {
                            line_maps::<A, B, E, F>(
                                *kernel,
                                line_at(source@, p, q, source_len as nat, stride as int),
                                line_at(destination@, p, q, result_len as nat, stride as int),
                            )
                        } else {
                            line_at(destination@, p, q, result_len as nat, stride as int)
                                == line_at(
                                old(destination)@,
                                p,
                                q,
                                result_len as nat,
                                stride as int,
                            )
                        } by {
                            if p == block && q == lane {
                            } else {
                                lemma_other_line_unchanged(
                                    earlier,
                                    destination@,
                                    block as int,
                                    lane as int,
                                    p,
                                    q,
                                    result_len as nat,
                                    stride as int,
                                    count as int,
                                );
                            }
                        }
                    }
                },
                Err(error) => {
                    return Err(error);
                },
            }
            lane += 1;
        }
        block += 1;
    }
    Ok(())
}

/// Copies `source` over `destination`.
pub fn copy_all<T: Copy>(source: &[T], destination: &mut [T])
    requires
        source@.len() == old(destination)@.len(),
    ensures
        final(destination)@ == source@,
{
    let mut i: usize = 0;
    while i < source.len()
        invariant
            i <= source@.len() == source.len(),
            source@.len() == destination@.len(),
            forall|j: int| 0 <= j < i ==> destination@[j] == source@[j],
        decreases source@.len() - i,
    {
        destination[i] = source[i];
        i += 1;
    }
    assert(destination@ =~= source@);
}

/// Runs `kernel` over every line of `data` and writes each result over its line. It stops at the
/// first line that the kernel rejects.
pub fn transform_lines_in_place<T: Copy, E, F: Fn(&[T], usize) -> Result<Vec<T>, E>>(
    kernel: &F,
    data: &mut [T],
    line: &mut Vec<T>,
    len: usize,
    stride: usize,
    count: usize,
) -> (result: Result<(), E>)
    requires
        old(data)@.len() == count * len * stride,
        len <= old(line)@.len(),
        line_kernel::<T, T, E, F>(*kernel),
    ensures
        final(line)@.len() == old(line)@.len(),
        match result {
            Ok(_) => lines_done::<T, T, E, F>(
                *kernel,
                old(data)@,
                old(data)@,
                final(data)@,
                len as nat,
                len as nat,
                stride as int,
                count as int,
                count as int,
                0,
            ),
            Err(error) => exists|block: int, lane: int|
                0 <= block < count && 0 <= lane < stride && #[trigger] lines_done::<T, T, E, F>(
                    *kernel,
                    old(data)@,
                    old(data)@,
                    final(data)@,
                    len as nat,
                    len as nat,
                    stride as int,
                    count as int,
                    block,
                    lane,
                ) && line_fails::<T, T, E, F>(
                    *kernel,
                    line_at(old(data)@, block, lane, len as nat, stride as int),
                    len as int,
                    error,
                ),
        },
{
    let mut block: usize = 0;
    while block < count
        invariant
            block <= count,
            data@.len() == count * len * stride,
            line@.len() == old(line)@.len(),
            len <= line@.len(),
            line_kernel::<T, T, E, F>(*kernel),
            lines_done::<T, T, E, F>(
                *kernel,
                old(data)@,
                old(data)@,
                data@,
                len as nat,
                len as nat,
                stride as int,
                count as int,
                block as int,
                0,
            ),
        decreases count - block,
    {
        let mut lane: usize = 0;
        while lane < stride
            invariant
                lane <= stride,
                block < count,
                data@.len() == count * len * stride,
                line@.len() == old(line)@.len(),
                len <= line@.len(),
                line_kernel::<T, T, E, F>(*kernel),
                lines_done::<T, T, E, F>(
                    *kernel,
                    old(data)@,
                    old(data)@,
                    data@,
                    len as nat,
                    len as nat,
                    stride as int,
                    count as int,
                    block as int,
                    lane as int,
                ),
            decreases stride - lane,
        {
            gather(data, line, block, lane, len, stride, count);
            let input: &[T] = vstd::slice::slice_subrange(line.as_slice(), 0, len);
            assert(input@ == line_at(
                old(data)@,
                block as int,
                lane as int,
                len as nat,
                stride as int,
            ));
            match kernel(input, len) {
                Ok(output) => {
                    let ghost earlier = data@;
                    scatter(data, &output, block, lane, len, stride, count);
                    proof {
                        assert forall|p: int, q: int|
                            #![trigger line_at(data@, p, q, len as nat, stride as int)]
                            0 <= p < count && 0 <= q < stride implies if before(
                            p,
                            q,
                            block as int,
                            lane + 1,
                        ) {
                            line_maps::<T, T, E, F>(
                                *kernel,
                                line_at(old(data)@, p, q, len as nat, stride as int),
                                line_at(data@, p, q, len as nat, stride as int),
                            )
                        } else {
                            line_at(data@, p, q, len as nat, stride as int) == line_at(
                                old(data)@,
                                p,
                                q,
                                len as nat,
                                stride as int,
                            )
                        } by {
                            if p == block && q == lane {
                            } else {
                                lemma_other_line_unchanged(
                                    earlier,
                                    data@,
                                    block as int,
                                    lane as int,
                                    p,
                                    q,
                                    len as nat,
                                    stride as int,
                                    count as int,
                                );
                            }
                        }
                    }
                },
                Err(error) => {
                    return Err(error);
                },
            }
            lane += 1;
        }
        block += 1;
    }
    Ok(())
}

} // verus!
