//! Recasting one allocation between packed reals and half-complex lines, without a second buffer.
//!
//! Going forward, every real scalar is read before a complex value is written over it; going back,
//! every complex value is read before a real scalar is written over it.

use vstd::prelude::*;

use crate::error::FftError;
use crate::lines::before;
use crate::lines::lemma_other_line_unchanged;
use crate::lines::lemma_position_bound;
use crate::lines::lemma_position_unique;
use crate::lines::line_at;
use crate::lines::line_fails;
use crate::lines::line_kernel;
use crate::lines::line_maps;
use crate::lines::position;
use crate::lines::scatter;
use crate::scalar::flatten;
use crate::scalar::law_pairs_flatten;
use crate::scalar::pairs_of;
use crate::scalar::Complex;
use crate::scalar::FftReal;
use crate::sweep::SweepError;

verus! {

/// The real parts of complex values.
pub open spec fn real_parts<R>(values: Seq<Complex<R>>) -> Seq<R> {
    Seq::new(values.len(), |i: int| values[i]@[0])
}

/// Spreads the first `count` packed scalars of `storage` over its first `count` complex slots:
/// scalar `i` becomes the real part of slot `i`, whose imaginary part becomes zero.
pub fn promote_reals<R: FftReal>(storage: &mut Vec<Complex<R>>, count: usize) -> (result: Result<
    (),
    FftError,
>)
    ensures
        final(storage)@.len() == old(storage)@.len(),
        match result {
            Ok(_) => {
                &&& count <= old(storage)@.len()
                &&& forall|i: int|
                    0 <= i < count ==> (#[trigger] final(storage)@[i])@ == seq![
                        flatten(old(storage)@)[i],
                        R::zero_bits(),
                    ]
                &&& forall|i: int|
                    count <= i < old(storage)@.len() ==> #[trigger] final(storage)@[i] == old(storage)@[i]
            },
            Err(error) => error == FftError::StorageLayoutMismatch && count > old(storage)@.len()
                && final(storage)@ == old(storage)@,
        },
{
    if count > storage.len() {
        return Err(FftError::StorageLayoutMismatch);
    }
    let mut i: usize = count;
    while i > 0
        invariant
            i <= count <= storage@.len() == old(storage)@.len(),
            forall|j: int|
                i <= j < count ==> (#[trigger] storage@[j])@ == seq![
                    flatten(old(storage)@)[j],
                    R::zero_bits(),
                ],
            forall|j: int| 0 <= j < i ==> #[trigger] storage@[j] == old(storage)@[j],
            forall|j: int|
                count <= j < storage@.len() ==> #[trigger] storage@[j] == old(storage)@[j],
        decreases i,
    {
        i -= 1;
        let value: R = match R::scalar_view(storage.as_slice()) {
            Some(view) => {
                proof {
                    assert(view@ == flatten(storage@));
                    assert(storage@[i as int / 2] == old(storage)@[i as int / 2]);
                    assert(flatten(storage@)[i as int] == flatten(old(storage)@)[i as int]);
                }
                view[i]
            },
            None => {
                return Err(FftError::StorageLayoutMismatch);
            },
        };
        let pair: Complex<R> = [value, R::zero()];
        assert(pair@ =~= seq![flatten(old(storage)@)[i as int], R::zero_bits()]);
        storage[i] = pair;
    }
    Ok(())
}

/// Packs the real parts of the first `count` complex slots of `storage` into its first `count`
/// scalars.
pub fn demote_reals<R: FftReal>(storage: &mut Vec<R>, count: usize) -> (result: Result<(), FftError>)
    ensures
        final(storage)@.len() == old(storage)@.len(),
        result is Ok <==> count == 0 || (old(storage)@.len() % 2 == 0 && 2 * count <= old(storage)@.len()),
        match result {
            Ok(_) => {
                &&& forall|i: int|
                    0 <= i < count ==> #[trigger] final(storage)@[i] == old(storage)@[2 * i]
                &&& forall|i: int|
                    count <= i < old(storage)@.len() ==> #[trigger] final(storage)@[i] == old(storage)@[i]
            },
            Err(error) => error == FftError::StorageLayoutMismatch,
        },
{
    let mut i: usize = 0;
    while i < count
        invariant
            i <= count,
            storage@.len() == old(storage)@.len(),
            i > 0 ==> old(storage)@.len() % 2 == 0 && 2 * i <= old(storage)@.len(),
            forall|j: int| 0 <= j < i ==> #[trigger] storage@[j] == old(storage)@[2 * j],
            forall|j: int| i <= j < storage@.len() ==> #[trigger] storage@[j] == old(storage)@[j],
        decreases count - i,
    {
        let value: R = match R::pair_view(storage.as_slice()) {
            Some(view) => {
                assert(flatten(view@) == storage@);
                assert(flatten(view@).len() == 2 * view@.len());
                if i >= view.len() {
                    return Err(FftError::StorageLayoutMismatch);
                }
                assert(flatten(view@)[2 * i] == view@[i as int]@[0]);
                let pair: Complex<R> = view[i];
                pair[0]
            },
            None => {
                return Err(FftError::StorageLayoutMismatch);
            },
        };
        storage[i] = value;
        i += 1;
    }
    Ok(())
}

/// What a pass over contiguous or strided lines has turned reals into: every line of `reals` is
/// mapped by `kernel` to the line of `complexes` of the same block and lane.
pub open spec fn forward_converted<R, E, F: Fn(&[R], usize) -> Result<Vec<Complex<R>>, E>>(
    kernel: F,
    reals: Seq<R>,
    complexes: Seq<Complex<R>>,
    groups: int,
    real_len: nat,
    complex_len: nat,
    stride: int,
) -> bool {
    forall|p: int, q: int|
        #![trigger line_at(complexes, p, q, complex_len, stride)]
        0 <= p < groups && 0 <= q < stride ==> line_maps::<R, Complex<R>, E, F>(
            kernel,
            line_at(reals, p, q, real_len, stride),
            line_at(complexes, p, q, complex_len, stride),
        )
}

/// What a pass over contiguous or strided lines has turned half-complex lines into: every line
/// of `complexes` is mapped by `kernel` to the line of `reals` of the same block and lane.
pub open spec fn reverse_converted<R, E, F: Fn(&[Complex<R>], usize) -> Result<Vec<R>, E>>(
    kernel: F,
    complexes: Seq<Complex<R>>,
    reals: Seq<R>,
    groups: int,
    complex_len: nat,
    real_len: nat,
    stride: int,
) -> bool {
    forall|p: int, q: int|
        #![trigger line_at(reals, p, q, real_len, stride)]
        0 <= p < groups && 0 <= q < stride ==> line_maps::<Complex<R>, R, E, F>(
            kernel,
            line_at(complexes, p, q, complex_len, stride),
            line_at(reals, p, q, real_len, stride),
        )
}

/// `kernel` rejected a line of `source`, asked for `result_len` elements, with `error`.
pub open spec fn some_line_fails<A, B, E, F: Fn(&[A], usize) -> Result<Vec<B>, E>>(
    kernel: F,
    source: Seq<A>,
    groups: int,
    source_len: nat,
    result_len: int,
    stride: int,
    error: E,
) -> bool {
    exists|p: int, q: int|
        0 <= p < groups && 0 <= q < stride && line_fails::<A, B, E, F>(
            kernel,
            #[trigger] line_at(source, p, q, source_len, stride),
            result_len,
            error,
        )
}

/// `rows` contiguous lines of `len` elements fit into `available`.
pub open spec fn rows_fit(rows: int, len: int, available: int) -> bool {
    rows * len <= available
}

proof fn lemma_rows_monotone(row: int, rows: int, len: int)
    by (nonlinear_arith)
    requires
        0 <= row <= rows,
        0 <= len,
    ensures
        0 <= row * len <= rows * len,
        row * len + len == (row + 1) * len,
{
}

/// A contiguous line is the line of lane zero at stride one.
proof fn lemma_contiguous_line<T>(data: Seq<T>, row: int, len: nat)
    requires
        0 <= row,
        row * len + len <= data.len(),
    ensures
        line_at(data, row, 0, len, 1) == data.subrange(row * len, row * len + len),
{
    assert(0 <= row * len) by (nonlinear_arith)
        requires
            0 <= row,
            0 <= len,
    ;
    assert(line_at(data, row, 0, len, 1) =~= data.subrange(row * len, row * len + len));
}

/// Turns `rows` contiguous real lines, packed at the front of `storage`, into contiguous
/// half-complex lines in the same storage. The last row goes first, so that a row is read before
/// the rows behind it grow over it.
pub fn convert_rows_forward<R: FftReal, E, F: Fn(&[R], usize) -> Result<Vec<Complex<R>>, E>>(
    kernel: &F,
    storage: &mut Vec<Complex<R>>,
    rows: usize,
    real_len: usize,
    complex_len: usize,
) -> (result: Result<(), SweepError<E>>)
    requires
        line_kernel::<R, Complex<R>, E, F>(*kernel),
        complex_len == real_len / 2 + 1,
    ensures
        final(storage)@.len() == old(storage)@.len(),
        match result {
            Ok(_) => {
                &&& rows_fit(rows as int, complex_len as int, old(storage)@.len() as int)
                &&& forward_converted::<R, E, F>(
                    *kernel,
                    flatten(old(storage)@),
                    final(storage)@,
                    rows as int,
                    real_len as nat,
                    complex_len as nat,
                    1,
                )
                &&& forall|i: int|
                    rows * complex_len <= i < old(storage)@.len() ==> #[trigger] final(storage)@[i]
                        == old(storage)@[i]
            },
            Err(SweepError::Fft(error)) => {
                &&& error == FftError::PreparationFailed
                &&& !rows_fit(rows as int, complex_len as int, old(storage)@.len() as int)
                &&& final(storage)@ == old(storage)@
            },
            Err(SweepError::Kernel(error)) => {
                &&& rows_fit(rows as int, complex_len as int, old(storage)@.len() as int)
                &&& some_line_fails::<R, Complex<R>, E, F>(
                    *kernel,
                    flatten(old(storage)@),
                    rows as int,
                    real_len as nat,
                    complex_len as int,
                    1,
                    error,
                )
            },
        },
{
    let available: usize = storage.len();
    match rows.checked_mul(complex_len) {
        Some(total) => {
            if total > available {
                return Err(SweepError::Fft(FftError::PreparationFailed));
            }
        },
        None => {
            return Err(SweepError::Fft(FftError::PreparationFailed));
        },
    }
    let ghost original = storage@;
    let mut row: usize = rows;
    while row > 0
        invariant
            row <= rows,
            rows * complex_len <= storage@.len(),
            storage@.len() == original.len() == available,
            original == old(storage)@,
            complex_len == real_len / 2 + 1,
            line_kernel::<R, Complex<R>, E, F>(*kernel),
            forall|i: int| 0 <= i < row * complex_len ==> #[trigger] storage@[i] == original[i],
            forall|i: int|
                rows * complex_len <= i < original.len() ==> #[trigger] storage@[i] == original[i],
            forall|p: int|
                #![trigger line_at(storage@, p, 0, complex_len as nat, 1)]
                row <= p < rows ==> line_maps::<R, Complex<R>, E, F>(
                    *kernel,
                    line_at(flatten(original), p, 0, real_len as nat, 1),
                    line_at(storage@, p, 0, complex_len as nat, 1),
                ),
        decreases row,
    {
        row -= 1;
        proof {
            lemma_rows_monotone(row as int, row + 1, complex_len as int);
            lemma_rows_monotone(row + 1, rows as int, complex_len as int);
            lemma_rows_monotone(row as int, row + 1, real_len as int);
            assert(row * real_len + real_len <= 2 * (row * complex_len) + 2 * complex_len)
                by (nonlinear_arith)
                requires
                    real_len <= 2 * complex_len,
                    0 <= row,
            ;
            assert(2 * (row * complex_len) + 2 * complex_len <= 2 * storage@.len());
        }
        let start: usize = row * complex_len;
        let line: Vec<R> = match R::scalar_view(storage.as_slice()) {
            Some(view) => {
                assert(view@.len() == view.len());
                let first: usize = row * real_len;
                let input: &[R] = vstd::slice::slice_subrange(view, first, first + real_len);
                vstd::slice::slice_to_vec(input)
            },
            None => {
                return Err(SweepError::Fft(FftError::StorageLayoutMismatch));
            },
        };
        proof {
            lemma_contiguous_line(flatten(original), row as int, real_len as nat);
            assert forall|j: int| 0 <= j < real_len implies #[trigger] line@[j] == flatten(original)[row * real_len + j] by {
                let i = row * real_len + j;
                assert(i / 2 < (row + 1) * complex_len) by {
                    assert(i < 2 * ((row + 1) * complex_len));
                }
                assert(storage@[i / 2] == original[i / 2]);
            }
            assert(line@ =~= line_at(flatten(original), row as int, 0, real_len as nat, 1));
        }
        match kernel(line.as_slice(), complex_len) {
            Ok(output) => {
                let ghost earlier = storage@;
                write_row(storage, &output, start);
                proof {
                    lemma_contiguous_line(storage@, row as int, complex_len as nat);
                    assert(line_at(storage@, row as int, 0, complex_len as nat, 1) =~= output@);
                    assert forall|p: int|
                        #![trigger line_at(storage@, p, 0, complex_len as nat, 1)]
                        row < p < rows implies line_maps::<R, Complex<R>, E, F>(
                        *kernel,
                        line_at(flatten(original), p, 0, real_len as nat, 1),
                        line_at(storage@, p, 0, complex_len as nat, 1),
                    ) by {
                        lemma_rows_monotone(row + 1, p, complex_len as int);
                        lemma_rows_monotone(p, rows as int, complex_len as int);
                        lemma_rows_monotone(p + 1, rows as int, complex_len as int);
                        lemma_contiguous_line(storage@, p, complex_len as nat);
                        lemma_contiguous_line(earlier, p, complex_len as nat);
                        assert(line_at(storage@, p, 0, complex_len as nat, 1) =~= line_at(
                            earlier,
                            p,
                            0,
                            complex_len as nat,
                            1,
                        ));
                    }
                }
            },
            Err(error) => {
                return Err(SweepError::Kernel(error));
            },
        }
    }
    proof {
        assert forall|p: int, q: int|
            #![trigger line_at(storage@, p, q, complex_len as nat, 1)]
            0 <= p < rows && 0 <= q < 1 implies line_maps::<R, Complex<R>, E, F>(
            *kernel,
            line_at(flatten(original), p, q, real_len as nat, 1),
            line_at(storage@, p, q, complex_len as nat, 1),
        ) by {
            assert(q == 0);
        }
    }
    Ok(())
}

/// Writes `line` at `start` and leaves everything else as it is.
fn write_row<T: Copy>(storage: &mut Vec<T>, line: &Vec<T>, start: usize)
    requires
        start + line@.len() <= old(storage)@.len(),
    ensures
        final(storage)@.len() == old(storage)@.len(),
        final(storage)@.subrange(start as int, start + line@.len()) == line@,
        forall|i: int|
            0 <= i < old(storage)@.len() && !(start <= i < start + line@.len()) ==> #[trigger] final(storage)@[i] == old(storage)@[i],
{
    let available: usize = storage.len();
    let mut k: usize = 0;
    while k < line.len()
        invariant
            k <= line@.len(),
            start + line@.len() <= storage@.len() == available,
            storage@.len() == old(storage)@.len(),
            forall|i: int|
                start <= i < start + k ==> #[trigger] storage@[i] == line@[i - start],
            forall|i: int|
                0 <= i < storage@.len() && !(start <= i < start + k) ==> #[trigger] storage@[i]
                    == old(storage)@[i],
        decreases line@.len() - k,
    {
        storage[start + k] = line[k];
        k += 1;
    }
    assert(storage@.subrange(start as int, start + line@.len()) =~= line@);
}

/// Reads the contiguous half-complex line `row` of `storage`.
fn read_pair_row<R: FftReal>(storage: &Vec<R>, row: usize, complex_len: usize) -> (result: Result<
    Vec<Complex<R>>,
    FftError,
>)
    requires
        complex_len > 0,
    ensures
        match result {
            Ok(line) => {
                &&& storage@.len() % 2 == 0
                &&& row * complex_len + complex_len == (row + 1) * complex_len
                &&& (row + 1) * complex_len <= storage@.len() / 2
                &&& line@ == line_at(pairs_of(storage@), row as int, 0, complex_len as nat, 1)
            },
            Err(error) => if storage@.len() % 2 != 0 {
                error == FftError::StorageLayoutMismatch
            } else {
                error == FftError::PreparationFailed && (row + 1) * complex_len > storage@.len() / 2
            },
        },
{
    match R::pair_view(storage.as_slice()) {
        Some(view) => {
            proof {
                assert(flatten(view@) == storage@);
                assert(flatten(view@).len() == 2 * view@.len());
                law_pairs_flatten(view@);
                lemma_rows_monotone(row as int, row + 1, complex_len as int);
            }
            if view.len() < complex_len || row > (view.len() - complex_len) / complex_len {
                proof {
                    lemma_row_outside(row as int, complex_len as int, view@.len() as int);
                }
                return Err(FftError::PreparationFailed);
            }
            proof {
                lemma_row_inside(row as int, complex_len as int, view@.len() as int);
                lemma_contiguous_line(view@, row as int, complex_len as nat);
            }
            let first: usize = row * complex_len;
            let input: &[Complex<R>] = vstd::slice::slice_subrange(view, first, first + complex_len);
            Ok(vstd::slice::slice_to_vec(input))
        },
        None => Err(FftError::StorageLayoutMismatch),
    }
}

/// The half-complex line `row` does not reach into the real lines before it.
proof fn lemma_pair_row_unchanged<R>(
    original: Seq<R>,
    current: Seq<R>,
    row: int,
    complex_len: nat,
    real_len: nat,
)
    requires
        0 <= row,
        real_len <= 2 * complex_len,
        original.len() == current.len(),
        row * complex_len + complex_len <= original.len() / 2,
        forall|i: int|
            row * real_len <= i < original.len() ==> #[trigger] current[i] == original[i],
    ensures
        line_at(pairs_of(current), row, 0, complex_len, 1) == line_at(
            pairs_of(original),
            row,
            0,
            complex_len,
            1,
        ),
{
    assert forall|k: int| 0 <= k < complex_len implies #[trigger] pairs_of(current)[row
        * complex_len + k] == pairs_of(original)[row * complex_len + k] by {
        let i = row * complex_len + k;
        assert(row * real_len <= 2 * i && 0 <= i) by (nonlinear_arith)
            requires
                i == row * complex_len + k,
                k >= 0,
                row >= 0,
                real_len <= 2 * complex_len,
        ;
        assert(current[2 * i] == original[2 * i]);
        assert(current[2 * i + 1] == original[2 * i + 1]);
    }
    assert(line_at(pairs_of(current), row, 0, complex_len, 1) =~= line_at(
        pairs_of(original),
        row,
        0,
        complex_len,
        1,
    ));
}

/// Turns `rows` contiguous half-complex lines at the front of `storage` into packed real lines in
/// the same storage. The first row goes first, so that a row is read before the rows before it
/// could reach it.
pub fn convert_rows_reverse<R: FftReal, E, F: Fn(&[Complex<R>], usize) -> Result<Vec<R>, E>>(
    kernel: &F,
    storage: &mut Vec<R>,
    rows: usize,
    complex_len: usize,
    real_len: usize,
) -> (result: Result<(), SweepError<E>>)
    requires
        line_kernel::<Complex<R>, R, E, F>(*kernel),
        complex_len == real_len / 2 + 1,
    ensures
        final(storage)@.len() == old(storage)@.len(),
        match result {
            Ok(_) => {
                &&& rows > 0 ==> old(storage)@.len() % 2 == 0 && rows_fit(
                    rows as int,
                    complex_len as int,
                    pairs_of(old(storage)@).len() as int,
                )
                &&& reverse_converted::<R, E, F>(
                    *kernel,
                    pairs_of(old(storage)@),
                    final(storage)@,
                    rows as int,
                    complex_len as nat,
                    real_len as nat,
                    1,
                )
                &&& forall|i: int|
                    rows * real_len <= i < old(storage)@.len() ==> #[trigger] final(storage)@[i]
                        == old(storage)@[i]
            },
            Err(SweepError::Fft(error)) => if old(storage)@.len() % 2 != 0 {
                error == FftError::StorageLayoutMismatch && rows > 0
            } else {
                error == FftError::PreparationFailed && !rows_fit(
                    rows as int,
                    complex_len as int,
                    pairs_of(old(storage)@).len() as int,
                )
            },
            Err(SweepError::Kernel(error)) => old(storage)@.len() % 2 == 0 && some_line_fails::<
                Complex<R>,
                R,
                E,
                F,
            >(
                *kernel,
                pairs_of(old(storage)@),
                rows as int,
                complex_len as nat,
                real_len as int,
                1,
                error,
            ),
        },
{
    let available: usize = storage.len();
    let ghost original = storage@;
    let ghost complexes = pairs_of(original);
    let mut row: usize = 0;
    while row < rows
        invariant
            row <= rows,
            row > 0 ==> original.len() % 2 == 0,
            storage@.len() == original.len() == available,
            original == old(storage)@,
            complexes == pairs_of(original),
            row > 0 ==> row * complex_len <= complexes.len(),
            complex_len == real_len / 2 + 1,
            line_kernel::<Complex<R>, R, E, F>(*kernel),
            forall|i: int|
                row * real_len <= i < original.len() ==> #[trigger] storage@[i] == original[i],
            forall|p: int|
                #![trigger line_at(storage@, p, 0, real_len as nat, 1)]
                0 <= p < row ==> line_maps::<Complex<R>, R, E, F>(
                    *kernel,
                    line_at(complexes, p, 0, complex_len as nat, 1),
                    line_at(storage@, p, 0, real_len as nat, 1),
                ),
        decreases rows - row,
    {
        let line: Vec<Complex<R>> = match read_pair_row(storage, row, complex_len) {
            Ok(line) => line,
            Err(error) => {
                proof {
                    lemma_rows_monotone(row + 1, rows as int, complex_len as int);
                }
                return Err(SweepError::Fft(error));
            },
        };
        proof {
            lemma_pair_row_unchanged(
                original,
                storage@,
                row as int,
                complex_len as nat,
                real_len as nat,
            );
        }
        proof {
            assert(row * real_len + real_len <= 2 * (row * complex_len + complex_len))
                by (nonlinear_arith)
                requires
                    real_len <= 2 * complex_len,
                    0 <= row,
            ;
            assert(0 <= row * real_len) by (nonlinear_arith);
        }
        let start: usize = row * real_len;
        match kernel(line.as_slice(), real_len) {
            Ok(output) => {
                let ghost earlier = storage@;
                write_row(storage, &output, start);
                proof {
                    lemma_rows_monotone(row as int, row + 1, real_len as int);
                    lemma_contiguous_line(storage@, row as int, real_len as nat);
                    assert(line_at(storage@, row as int, 0, real_len as nat, 1) =~= output@);
                    assert forall|p: int|
                        #![trigger line_at(storage@, p, 0, real_len as nat, 1)]
                        0 <= p < row implies line_maps::<Complex<R>, R, E, F>(
                        *kernel,
                        line_at(complexes, p, 0, complex_len as nat, 1),
                        line_at(storage@, p, 0, real_len as nat, 1),
                    ) by {
                        lemma_rows_monotone(p, row as int, real_len as int);
                        lemma_rows_monotone(p + 1, row as int, real_len as int);
                        lemma_contiguous_line(storage@, p, real_len as nat);
                        lemma_contiguous_line(earlier, p, real_len as nat);
                        assert(line_at(storage@, p, 0, real_len as nat, 1) =~= line_at(
                            earlier,
                            p,
                            0,
                            real_len as nat,
                            1,
                        ));
                    }
                }
            },
            Err(error) => {
                return Err(SweepError::Kernel(error));
            },
        }
        row += 1;
    }
    proof {
        assert forall|p: int, q: int|
            #![trigger line_at(storage@, p, q, real_len as nat, 1)]
            0 <= p < rows && 0 <= q < 1 implies line_maps::<Complex<R>, R, E, F>(
            *kernel,
            line_at(complexes, p, q, complex_len as nat, 1),
            line_at(storage@, p, q, real_len as nat, 1),
        ) by {
            assert(q == 0);
        }
    }
    Ok(())
}

proof fn lemma_row_outside(row: int, len: int, available: int)
    requires
        0 <= row,
        0 < len,
        0 <= available,
        available < len || row > (available - len) / len,
    ensures
        (row + 1) * len > available,
{
    if available < len {
        assert((row + 1) * len >= len) by (nonlinear_arith)
            requires
                0 <= row,
                0 < len,
        ;
    } else {
        let quotient = (available - len) / len;
        assert((row + 1) * len > available) by (nonlinear_arith)
            requires
                quotient == (available - len) / len,
                row >= quotient + 1,
                0 < len,
                available >= len,
        ;
    }
}

proof fn lemma_row_inside(row: int, len: int, available: int)
    by (nonlinear_arith)
    requires
        0 <= row,
        0 < len,
        len <= available,
        row <= (available - len) / len,
    ensures
        row * len + len <= available,
        0 <= row * len,
{
}

/// Copies the real parts of line `(block, lane)` of `storage` into a new line.
fn gather_real<R: Copy>(
    storage: &Vec<Complex<R>>,
    block: usize,
    lane: usize,
    len: usize,
    stride: usize,
    count: usize,
) -> (line: Vec<R>)
    requires
        block < count,
        lane < stride,
        count * len * stride <= storage@.len(),
    ensures
        line@ == line_at(
            real_parts(storage@),
            block as int,
            lane as int,
            len as nat,
            stride as int,
        ),
{
    let available: usize = storage.len();
    let mut line: Vec<R> = Vec::new();
    let mut k: usize = 0;
    while k < len
        invariant
            k <= len,
            block < count,
            lane < stride,
            count * len * stride <= storage@.len() == available,
            line@.len() == k,
            forall|j: int|
                0 <= j < k ==> line@[j] == real_parts(storage@)[position(
                    block as int,
                    lane as int,
                    j,
                    len as int,
                    stride as int,
                )],
        decreases len - k,
    {
        proof {
            lemma_position_bound(
                block as int,
                lane as int,
                k as int,
                count as int,
                len as int,
                stride as int,
            );
        }
        let index: usize = (block * len + k) * stride + lane;
        let pair: Complex<R> = storage[index];
        line.push(pair[0]);
        k += 1;
    }
    assert(line@ =~= line_at(
        real_parts(storage@),
        block as int,
        lane as int,
        len as nat,
        stride as int,
    ));
    line
}

/// A line that is written into shorter blocks does not touch a line of longer blocks that is
/// visited later.
proof fn lemma_shorter_block_apart(
    block: int,
    lane: int,
    k: int,
    len: int,
    later_block: int,
    later_lane: int,
    j: int,
    later_len: int,
    stride: int,
)
    requires
        0 <= block,
        0 <= lane < stride,
        0 <= k < len <= later_len,
        0 <= later_lane < stride,
        0 <= j < later_len,
        before(block, lane, later_block, later_lane),
    ensures
        position(block, lane, k, len, stride) != position(
            later_block,
            later_lane,
            j,
            later_len,
            stride,
        ),
{
    let a = block * len + k;
    let b = later_block * later_len + j;
    if lane == later_lane {
        assert(a < b) by (nonlinear_arith)
            requires
                a == block * len + k,
                b == later_block * later_len + j,
                0 <= k < len <= later_len,
                0 <= j,
                0 <= block,
                block + 1 <= later_block,
        ;
        assert(a * stride < b * stride) by (nonlinear_arith)
            requires
                a < b,
                0 < stride,
        ;
    } else {
        assert(a * stride + lane != b * stride + later_lane) by (nonlinear_arith)
            requires
                0 <= lane < stride,
                0 <= later_lane < stride,
                lane != later_lane,
        ;
    }
}

/// How far a forward pass in one storage has come: lines before `(block, lane)` are converted,
/// the real parts of the others are as they were.
pub open spec fn shrinking_done<R, E, F: Fn(&[R], usize) -> Result<Vec<Complex<R>>, E>>(
    kernel: F,
    original: Seq<Complex<R>>,
    current: Seq<Complex<R>>,
    groups: int,
    real_len: nat,
    complex_len: nat,
    stride: int,
    block: int,
    lane: int,
) -> bool {
    &&& current.len() == original.len()
    &&& forall|p: int, q: int|
        #![trigger line_at(current, p, q, complex_len, stride)]
        0 <= p < groups && 0 <= q < stride && before(p, q, block, lane) ==> line_maps::<
            R,
            Complex<R>,
            E,
            F,
        >(
            kernel,
            line_at(real_parts(original), p, q, real_len, stride),
            line_at(current, p, q, complex_len, stride),
        )
    &&& forall|p: int, q: int|
        #![trigger line_at(real_parts(current), p, q, real_len, stride)]
        0 <= p < groups && 0 <= q < stride && !before(p, q, block, lane) ==> line_at(
            real_parts(current),
            p,
            q,
            real_len,
            stride,
        ) == line_at(real_parts(original), p, q, real_len, stride)
    &&& forall|i: int|
        groups * complex_len * stride <= i < original.len() ==> #[trigger] current[i] == original[i]
}

proof fn lemma_shrinking_step<R, E, F: Fn(&[R], usize) -> Result<Vec<Complex<R>>, E>>(
    kernel: F,
    original: Seq<Complex<R>>,
    earlier: Seq<Complex<R>>,
    current: Seq<Complex<R>>,
    groups: int,
    real_len: nat,
    complex_len: nat,
    stride: int,
    block: int,
    lane: int,
)
    requires
        0 <= block < groups,
        0 <= lane < stride,
        complex_len <= real_len,
        groups * real_len * stride <= original.len(),
        groups * complex_len * stride <= original.len(),
        current.len() == earlier.len(),
        shrinking_done::<R, E, F>(
            kernel,
            original,
            earlier,
            groups,
            real_len,
            complex_len,
            stride,
            block,
            lane,
        ),
        line_maps::<R, Complex<R>, E, F>(
            kernel,
            line_at(real_parts(original), block, lane, real_len, stride),
            line_at(current, block, lane, complex_len, stride),
        ),
        forall|i: int|
            #![trigger current[i]]
            0 <= i < earlier.len() && (forall|k: int|
                0 <= k < complex_len ==> i != #[trigger] position(
                    block,
                    lane,
                    k,
                    complex_len as int,
                    stride,
                )) ==> current[i] == earlier[i],
    ensures
        shrinking_done::<R, E, F>(
            kernel,
            original,
            current,
            groups,
            real_len,
            complex_len,
            stride,
            block,
            lane + 1,
        ),
{
    assert forall|p: int, q: int|
        #![trigger line_at(current, p, q, complex_len, stride)]
        0 <= p < groups && 0 <= q < stride && before(p, q, block, lane + 1) implies line_maps::<
        R,
        Complex<R>,
        E,
        F,
    >(
        kernel,
        line_at(real_parts(original), p, q, real_len, stride),
        line_at(current, p, q, complex_len, stride),
    ) by {
        if p != block || q != lane {
            lemma_other_line_unchanged(
                earlier,
                current,
                block,
                lane,
                p,
                q,
                complex_len,
                stride,
                groups,
            );
            assert(before(p, q, block, lane));
            assert(line_at(earlier, p, q, complex_len, stride) == line_at(
                current,
                p,
                q,
                complex_len,
                stride,
            ));
        }
    }
    assert forall|p: int, q: int|
        #![trigger line_at(real_parts(current), p, q, real_len, stride)]
        0 <= p < groups && 0 <= q < stride && !before(p, q, block, lane + 1) implies line_at(
        real_parts(current),
        p,
        q,
        real_len,
        stride,
    ) == line_at(real_parts(original), p, q, real_len, stride) by {
        assert(before(block, lane, p, q));
        assert(line_at(real_parts(earlier), p, q, real_len, stride) == line_at(
            real_parts(original),
            p,
            q,
            real_len,
            stride,
        ));
        assert forall|j: int| 0 <= j < real_len implies line_at(
            real_parts(current),
            p,
            q,
            real_len,
            stride,
        )[j] == line_at(real_parts(earlier), p, q, real_len, stride)[j] by {
            let i = position(p, q, j, real_len as int, stride);
            lemma_position_bound(p, q, j, groups, real_len as int, stride);
            assert forall|k: int| 0 <= k < complex_len implies i != #[trigger] position(
                block,
                lane,
                k,
                complex_len as int,
                stride,
            ) by {
                lemma_shorter_block_apart(
                    block,
                    lane,
                    k,
                    complex_len as int,
                    p,
                    q,
                    j,
                    real_len as int,
                    stride,
                );
            }
            assert(current[i] == earlier[i]);
        }
        assert(line_at(real_parts(current), p, q, real_len, stride) =~= line_at(
            real_parts(earlier),
            p,
            q,
            real_len,
            stride,
        ));
    }
    assert forall|i: int|
        groups * complex_len * stride <= i < original.len() implies #[trigger] current[i]
        == original[i] by {
        assert forall|k: int| 0 <= k < complex_len implies i != #[trigger] position(
            block,
            lane,
            k,
            complex_len as int,
            stride,
        ) by {
            lemma_position_bound(block, lane, k, groups, complex_len as int, stride);
        }
        assert(0 <= groups * complex_len * stride) by (nonlinear_arith)
            requires
                0 <= groups,
                0 <= complex_len,
                0 <= stride,
        ;
        assert(current[i] == earlier[i]);
        assert(earlier[i] == original[i]);
    }
}

/// Turns the strided real lines held in the real parts of `storage` into half-complex lines of
/// the same storage, block by block and lane by lane.
pub fn convert_lines_forward<R: FftReal, E, F: Fn(&[R], usize) -> Result<Vec<Complex<R>>, E>>(
    kernel: &F,
    storage: &mut Vec<Complex<R>>,
    groups: usize,
    real_len: usize,
    complex_len: usize,
    stride: usize,
) -> (result: Result<(), E>)
    requires
        line_kernel::<R, Complex<R>, E, F>(*kernel),
        complex_len <= real_len,
        groups * real_len * stride <= old(storage)@.len(),
        groups * complex_len * stride <= old(storage)@.len(),
    ensures
        final(storage)@.len() == old(storage)@.len(),
        match result {
            Ok(_) => {
                &&& forward_converted::<R, E, F>(
                    *kernel,
                    real_parts(old(storage)@),
                    final(storage)@,
                    groups as int,
                    real_len as nat,
                    complex_len as nat,
                    stride as int,
                )
                &&& forall|i: int|
                    groups * complex_len * stride <= i < old(storage)@.len() ==> #[trigger] final(
                        storage)@[i] == old(storage)@[i]
            },
            Err(error) => some_line_fails::<R, Complex<R>, E, F>(
                *kernel,
                real_parts(old(storage)@),
                groups as int,
                real_len as nat,
                complex_len as int,
                stride as int,
                error,
            ),
        },
{
    let ghost original = storage@;
    let mut block: usize = 0;
    while block < groups
        invariant
            block <= groups,
            original == old(storage)@,
            line_kernel::<R, Complex<R>, E, F>(*kernel),
            complex_len <= real_len,
            groups * real_len * stride <= original.len(),
            groups * complex_len * stride <= original.len(),
            shrinking_done::<R, E, F>(
                *kernel,
                original,
                storage@,
                groups as int,
                real_len as nat,
                complex_len as nat,
                stride as int,
                block as int,
                0,
            ),
        decreases groups - block,
    {
        let mut lane: usize = 0;
        while lane < stride
            invariant
                lane <= stride,
                block < groups,
                original == old(storage)@,
                line_kernel::<R, Complex<R>, E, F>(*kernel),
                complex_len <= real_len,
                groups * real_len * stride <= original.len(),
                groups * complex_len * stride <= original.len(),
                shrinking_done::<R, E, F>(
                    *kernel,
                    original,
                    storage@,
                    groups as int,
                    real_len as nat,
                    complex_len as nat,
                    stride as int,
                    block as int,
                    lane as int,
                ),
            decreases stride - lane,
        {
            let line: Vec<R> = gather_real(storage, block, lane, real_len, stride, groups);
            assert(line@ == line_at(
                real_parts(original),
                block as int,
                lane as int,
                real_len as nat,
                stride as int,
            ));
            match kernel(line.as_slice(), complex_len) {
                Ok(output) => {
                    let ghost earlier = storage@;
                    scatter(
                        storage.as_mut_slice(),
                        &output,
                        block,
                        lane,
                        complex_len,
                        stride,
                        groups,
                    );
                    proof {
                        lemma_shrinking_step::<R, E, F>(
                            *kernel,
                            original,
                            earlier,
                            storage@,
                            groups as int,
                            real_len as nat,
                            complex_len as nat,
                            stride as int,
                            block as int,
                            lane as int,
                        );
                    }
                },
                Err(error) => {
                    return Err(error);
                },
            }
            lane += 1;
        }
        proof {
            assert forall|p: int, q: int| 0 <= q < stride implies (#[trigger] before(
                p,
                q,
                block as int,
                stride as int,
            ) <==> before(p, q, block + 1, 0)) by {}
        }
        block += 1;
    }
    Ok(())
}

/// Copies the first `taken` elements of line `(block, lane)` of `storage` into a new line.
fn gather_front<T: Copy>(
    storage: &Vec<T>,
    taken: usize,
    block: usize,
    lane: usize,
    len: usize,
    stride: usize,
    count: usize,
) -> (line: Vec<T>)
    requires
        block < count,
        lane < stride,
        taken <= len,
        count * len * stride <= storage@.len(),
    ensures
        line@ == line_at(
            storage@,
            block as int,
            lane as int,
            len as nat,
            stride as int,
        ).take(taken as int),
{
    let available: usize = storage.len();
    let mut line: Vec<T> = Vec::new();
    let mut k: usize = 0;
    while k < taken
        invariant
            k <= taken <= len,
            block < count,
            lane < stride,
            count * len * stride <= storage@.len() == available,
            line@.len() == k,
            forall|j: int|
                0 <= j < k ==> line@[j] == storage@[position(
                    block as int,
                    lane as int,
                    j,
                    len as int,
                    stride as int,
                )],
        decreases taken - k,
    {
        proof {
            lemma_position_bound(
                block as int,
                lane as int,
                k as int,
                count as int,
                len as int,
                stride as int,
            );
        }
        let index: usize = (block * len + k) * stride + lane;
        line.push(storage[index]);
        k += 1;
    }
    assert(line@ =~= line_at(
        storage@,
        block as int,
        lane as int,
        len as nat,
        stride as int,
    ).take(taken as int));
    line
}

/// Writes `line` into the real parts of line `(block, lane)` of `storage`; imaginary parts and
/// other lines stay as they are.
fn scatter_real<R: Copy>(
    storage: &mut Vec<Complex<R>>,
    line: &Vec<R>,
    block: usize,
    lane: usize,
    len: usize,
    stride: usize,
    count: usize,
)
    requires
        block < count,
        lane < stride,
        count * len * stride <= old(storage)@.len(),
        len == line@.len(),
    ensures
        final(storage)@.len() == old(storage)@.len(),
        line_at(real_parts(final(storage)@), block as int, lane as int, len as nat, stride as int)
            == line@,
        forall|i: int|
            #![trigger final(storage)@[i]]
            0 <= i < old(storage)@.len() && (forall|k: int|
                0 <= k < len ==> i != #[trigger] position(
                    block as int,
                    lane as int,
                    k,
                    len as int,
                    stride as int,
                )) ==> final(storage)@[i] == old(storage)@[i],
{
    let available: usize = storage.len();
    let mut k: usize = 0;
    while k < len
        invariant
            k <= len,
            block < count,
            lane < stride,
            count * len * stride <= storage@.len() == available,
            len == line@.len(),
            storage@.len() == old(storage)@.len(),
            forall|j: int|
                0 <= j < k ==> real_parts(storage@)[position(
                    block as int,
                    lane as int,
                    j,
                    len as int,
                    stride as int,
                )] == line@[j],
            forall|i: int|
                #![trigger storage@[i]]
                0 <= i < old(storage)@.len() && (forall|j: int|
                    0 <= j < len ==> i != #[trigger] position(
                        block as int,
                        lane as int,
                        j,
                        len as int,
                        stride as int,
                    )) ==> storage@[i] == old(storage)@[i],
        decreases len - k,
    {
        proof {
            lemma_position_bound(
                block as int,
                lane as int,
                k as int,
                count as int,
                len as int,
                stride as int,
            );
            assert forall|j: int| 0 <= j < k implies #[trigger] position(
                block as int,
                lane as int,
                j,
                len as int,
                stride as int,
            ) != position(block as int, lane as int, k as int, len as int, stride as int)
                && 0 <= position(block as int, lane as int, j, len as int, stride as int)
                < storage@.len() by {
                lemma_position_bound(
                    block as int,
                    lane as int,
                    j,
                    count as int,
                    len as int,
                    stride as int,
                );
                if position(block as int, lane as int, j, len as int, stride as int) == position(
                    block as int,
                    lane as int,
                    k as int,
                    len as int,
                    stride as int,
                ) {
                    lemma_position_unique(
                        block as int,
                        lane as int,
                        j,
                        block as int,
                        lane as int,
                        k as int,
                        len as int,
                        stride as int,
                    );
                }
            }
        }
        let index: usize = (block * len + k) * stride + lane;
        let pair: Complex<R> = storage[index];
        let changed: Complex<R> = [line[k], pair[1]];
        storage[index] = changed;
        k += 1;
    }
    assert(line_at(real_parts(storage@), block as int, lane as int, len as nat, stride as int)
        =~= line@);
}

/// How far a reverse pass in one storage has come: the real parts of the lines before
/// `(block, lane)` are converted, the others are as they were.
pub open spec fn growing_done<R, E, F: Fn(&[Complex<R>], usize) -> Result<Vec<R>, E>>(
    kernel: F,
    original: Seq<Complex<R>>,
    current: Seq<Complex<R>>,
    groups: int,
    complex_len: nat,
    real_len: nat,
    stride: int,
    block: int,
    lane: int,
) -> bool {
    &&& current.len() == original.len()
    &&& forall|p: int, q: int|
        #![trigger line_at(real_parts(current), p, q, real_len, stride)]
        0 <= p < groups && 0 <= q < stride && before(p, q, block, lane) ==> line_maps::<
            Complex<R>,
            R,
            E,
            F,
        >(
            kernel,
            line_at(original, p, q, real_len, stride).take(complex_len as int),
            line_at(real_parts(current), p, q, real_len, stride),
        )
    &&& forall|p: int, q: int|
        #![trigger line_at(current, p, q, real_len, stride)]
        0 <= p < groups && 0 <= q < stride && !before(p, q, block, lane) ==> line_at(
            current,
            p,
            q,
            real_len,
            stride,
        ) == line_at(original, p, q, real_len, stride)
}

proof fn lemma_growing_step<R, E, F: Fn(&[Complex<R>], usize) -> Result<Vec<R>, E>>(
    kernel: F,
    original: Seq<Complex<R>>,
    earlier: Seq<Complex<R>>,
    current: Seq<Complex<R>>,
    groups: int,
    complex_len: nat,
    real_len: nat,
    stride: int,
    block: int,
    lane: int,
)
    requires
        0 <= block < groups,
        0 <= lane < stride,
        groups * real_len * stride <= original.len(),
        current.len() == earlier.len(),
        growing_done::<R, E, F>(
            kernel,
            original,
            earlier,
            groups,
            complex_len,
            real_len,
            stride,
            block,
            lane,
        ),
        line_maps::<Complex<R>, R, E, F>(
            kernel,
            line_at(original, block, lane, real_len, stride).take(complex_len as int),
            line_at(real_parts(current), block, lane, real_len, stride),
        ),
        forall|i: int|
            #![trigger current[i]]
            0 <= i < earlier.len() && (forall|k: int|
                0 <= k < real_len ==> i != #[trigger] position(
                    block,
                    lane,
                    k,
                    real_len as int,
                    stride,
                )) ==> current[i] == earlier[i],
    ensures
        growing_done::<R, E, F>(
            kernel,
            original,
            current,
            groups,
            complex_len,
            real_len,
            stride,
            block,
            lane + 1,
        ),
{
    assert forall|p: int, q: int|
        #![trigger line_at(real_parts(current), p, q, real_len, stride)]
        0 <= p < groups && 0 <= q < stride && before(p, q, block, lane + 1) implies line_maps::<
        Complex<R>,
        R,
        E,
        F,
    >(
        kernel,
        line_at(original, p, q, real_len, stride).take(complex_len as int),
        line_at(real_parts(current), p, q, real_len, stride),
    ) by {
        if p != block || q != lane {
            lemma_other_line_unchanged(
                earlier,
                current,
                block,
                lane,
                p,
                q,
                real_len,
                stride,
                groups,
            );
            assert(before(p, q, block, lane));
            lemma_real_parts_of_line(earlier, current, p, q, real_len, stride, groups);
            assert(line_at(real_parts(earlier), p, q, real_len, stride) == line_at(
                real_parts(current),
                p,
                q,
                real_len,
                stride,
            ));
        }
    }
    assert forall|p: int, q: int|
        #![trigger line_at(current, p, q, real_len, stride)]
        0 <= p < groups && 0 <= q < stride && !before(p, q, block, lane + 1) implies line_at(
        current,
        p,
        q,
        real_len,
        stride,
    ) == line_at(original, p, q, real_len, stride) by {
        lemma_other_line_unchanged(
            earlier,
            current,
            block,
            lane,
            p,
            q,
            real_len,
            stride,
            groups,
        );
        assert(line_at(earlier, p, q, real_len, stride) == line_at(
            original,
            p,
            q,
            real_len,
            stride,
        ));
    }
}

/// Equal lines have equal real parts.
proof fn lemma_real_parts_of_line<R>(
    left: Seq<Complex<R>>,
    right: Seq<Complex<R>>,
    block: int,
    lane: int,
    len: nat,
    stride: int,
    count: int,
)
    requires
        0 <= block < count,
        0 <= lane < stride,
        count * len * stride <= left.len(),
        left.len() == right.len(),
        line_at(left, block, lane, len, stride) == line_at(right, block, lane, len, stride),
    ensures
        line_at(real_parts(left), block, lane, len, stride) == line_at(
            real_parts(right),
            block,
            lane,
            len,
            stride,
        ),
{
    assert forall|k: int| 0 <= k < len implies line_at(
        real_parts(left),
        block,
        lane,
        len,
        stride,
    )[k] == line_at(real_parts(right), block, lane, len, stride)[k] by {
        lemma_position_bound(block, lane, k, count, len as int, stride);
        assert(line_at(left, block, lane, len, stride)[k] == line_at(
            right,
            block,
            lane,
            len,
            stride,
        )[k]);
    }
    assert(line_at(real_parts(left), block, lane, len, stride) =~= line_at(
        real_parts(right),
        block,
        lane,
        len,
        stride,
    ));
}

/// Turns strided half-complex lines, each at the front of a block of `real_len` rows, into the
/// real parts of the same block.
pub fn convert_lines_reverse<R: FftReal, E, F: Fn(&[Complex<R>], usize) -> Result<Vec<R>, E>>(
    kernel: &F,
    storage: &mut Vec<Complex<R>>,
    groups: usize,
    complex_len: usize,
    real_len: usize,
    stride: usize,
) -> (result: Result<(), E>)
    requires
        line_kernel::<Complex<R>, R, E, F>(*kernel),
        complex_len <= real_len,
        groups * real_len * stride <= old(storage)@.len(),
    ensures
        final(storage)@.len() == old(storage)@.len(),
        match result {
            Ok(_) => growing_done::<R, E, F>(
                *kernel,
                old(storage)@,
                final(storage)@,
                groups as int,
                complex_len as nat,
                real_len as nat,
                stride as int,
                groups as int,
                0,
            ),
            Err(error) => exists|p: int, q: int|
                0 <= p < groups && 0 <= q < stride && line_fails::<Complex<R>, R, E, F>(
                    *kernel,
                    (#[trigger] line_at(
                        old(storage)@,
                        p,
                        q,
                        real_len as nat,
                        stride as int,
                    )).take(complex_len as int),
                    real_len as int,
                    error,
                ),
        },
{
    let ghost original = storage@;
    let mut block: usize = 0;
    while block < groups
        invariant
            block <= groups,
            original == old(storage)@,
            line_kernel::<Complex<R>, R, E, F>(*kernel),
            complex_len <= real_len,
            groups * real_len * stride <= original.len(),
            growing_done::<R, E, F>(
                *kernel,
                original,
                storage@,
                groups as int,
                complex_len as nat,
                real_len as nat,
                stride as int,
                block as int,
                0,
            ),
        decreases groups - block,
    {
        let mut lane: usize = 0;
        while lane < stride
            invariant
                lane <= stride,
                block < groups,
                original == old(storage)@,
                line_kernel::<Complex<R>, R, E, F>(*kernel),
                complex_len <= real_len,
                groups * real_len * stride <= original.len(),
                growing_done::<R, E, F>(
                    *kernel,
                    original,
                    storage@,
                    groups as int,
                    complex_len as nat,
                    real_len as nat,
                    stride as int,
                    block as int,
                    lane as int,
                ),
            decreases stride - lane,
        {
            let line: Vec<Complex<R>> = gather_front(
                storage,
                complex_len,
                block,
                lane,
                real_len,
                stride,
                groups,
            );
            assert(line@ == line_at(
                original,
                block as int,
                lane as int,
                real_len as nat,
                stride as int,
            ).take(complex_len as int));
            match kernel(line.as_slice(), real_len) {
                Ok(output) => {
                    let ghost earlier = storage@;
                    scatter_real(storage, &output, block, lane, real_len, stride, groups);
                    proof {
                        lemma_growing_step::<R, E, F>(
                            *kernel,
                            original,
                            earlier,
                            storage@,
                            groups as int,
                            complex_len as nat,
                            real_len as nat,
                            stride as int,
                            block as int,
                            lane as int,
                        );
                    }
                },
                Err(error) => {
                    return Err(error);
                },
            }
            lane += 1;
        }
        proof {
            assert forall|p: int, q: int| 0 <= q < stride implies (#[trigger] before(
                p,
                q,
                block as int,
                stride as int,
            ) <==> before(p, q, block + 1, 0)) by {}
        }
        block += 1;
    }
    Ok(())
}

/// Moves the compressed blocks of `storage` apart, from the last to the first: block `p` of
/// `short_len` rows goes to the front of block `p` of `long_len` rows.
pub fn expand_blocks<T: Copy>(
    storage: &mut Vec<T>,
    groups: usize,
    short_len: usize,
    long_len: usize,
    stride: usize,
)
    requires
        short_len <= long_len,
        groups * long_len * stride <= old(storage)@.len(),
    ensures
        final(storage)@.len() == old(storage)@.len(),
        forall|p: int, q: int|
            #![trigger line_at(final(storage)@, p, q, long_len as nat, stride as int)]
            0 <= p < groups && 0 <= q < stride ==> line_at(
                final(storage)@,
                p,
                q,
                long_len as nat,
                stride as int,
            ).take(short_len as int) == line_at(
                old(storage)@,
                p,
                q,
                short_len as nat,
                stride as int,
            ),
{
    let available: usize = storage.len();
    let ghost original = storage@;
    let ghost short = short_len * stride;
    let ghost long = long_len * stride;
    proof {
        assert(short <= long && 0 <= short) by (nonlinear_arith)
            requires
                short == short_len * stride,
                long == long_len * stride,
                short_len <= long_len,
        ;
        assert(groups * long == groups * long_len * stride) by (nonlinear_arith)
            requires
                long == long_len * stride,
        ;
    }
    let mut block: usize = groups;
    while block > 0
        invariant
            block <= groups,
            original == old(storage)@,
            storage@.len() == original.len() == available,
            short == short_len * stride,
            long == long_len * stride,
            0 <= short <= long,
            groups * long <= available,
            forall|i: int| 0 <= i < block * short ==> #[trigger] storage@[i] == original[i],
            forall|p: int, r: int|
                #![trigger storage@[p * long + r]]
                block <= p < groups && 0 <= r < short ==> storage@[p * long + r] == original[p
                    * short + r],
        decreases block,
    {
        block -= 1;
        proof {
            assert(block * short <= block * long && block * long + long <= groups * long && block
                * short + short <= (block + 1) * short && block * short + short == (block + 1)
                * short && 0 <= block * short && long <= available) by (nonlinear_arith)
                requires
                    0 <= block < groups,
                    0 <= short <= long,
                    groups * long <= available,
            ;
            assert(block * short_len * stride == block * short && block * long_len * stride == block
                * long && block * short_len <= block * short_len * stride + 0 || stride == 0)
                by (nonlinear_arith)
                requires
                    short == short_len * stride,
                    long == long_len * stride,
                    0 <= block,
                    0 <= short_len,
                    0 <= stride,
            ;
        }
        if stride > 0 {
            assert(block * short_len <= block * short_len * stride && block * long_len <= block
                * long_len * stride) by (nonlinear_arith)
                requires
                    stride >= 1,
                    block >= 0,
                    short_len >= 0,
                    long_len >= 0,
            ;
            assert(block * short_len * stride == block * short && block * long_len * stride == block
                * long) by (nonlinear_arith)
                requires
                    short == short_len * stride,
                    long == long_len * stride,
            ;
            let source: usize = block * short_len * stride;
            let target: usize = block * long_len * stride;
            let size: usize = short_len * stride;
            move_up(storage, source, target, size);
            proof {
                assert forall|p: int, r: int|
                    #![trigger storage@[p * long + r]]
                    block <= p < groups && 0 <= r < short implies storage@[p * long + r]
                    == original[p * short + r] by {
                    if p > block {
                        assert(p * long + r >= block * long + long) by (nonlinear_arith)
                            requires
                                p >= block + 1,
                                0 <= long,
                                0 <= r,
                        ;
                        assert(p * long + r < groups * long) by (nonlinear_arith)
                            requires
                                p + 1 <= groups,
                                0 <= r < long,
                        ;
                    }
                }
            }
        } else {
            assert(short == 0) by (nonlinear_arith)
                requires
                    stride == 0,
                    short == short_len * stride,
            ;
        }
    }
    proof {
        assert forall|p: int, q: int|
            #![trigger line_at(storage@, p, q, long_len as nat, stride as int)]
            0 <= p < groups && 0 <= q < stride implies line_at(
            storage@,
            p,
            q,
            long_len as nat,
            stride as int,
        ).take(short_len as int) == line_at(original, p, q, short_len as nat, stride as int) by {
            assert forall|k: int| 0 <= k < short_len implies storage@[position(
                p,
                q,
                k,
                long_len as int,
                stride as int,
            )] == original[position(p, q, k, short_len as int, stride as int)] by {
                let r = k * stride + q;
                assert(0 <= r < short && position(p, q, k, long_len as int, stride as int) == p
                    * long + r && position(p, q, k, short_len as int, stride as int) == p * short
                    + r) by (nonlinear_arith)
                    requires
                        0 <= k < short_len,
                        0 <= q < stride,
                        r == k * stride + q,
                        short == short_len * stride,
                        long == long_len * stride,
                        position(p, q, k, long_len as int, stride as int) == (p * long_len + k)
                            * stride + q,
                        position(p, q, k, short_len as int, stride as int) == (p * short_len + k)
                            * stride + q,
                ;
                assert(storage@[p * long + r] == original[p * short + r]);
            }
            assert(line_at(storage@, p, q, long_len as nat, stride as int).take(short_len as int)
                =~= line_at(original, p, q, short_len as nat, stride as int));
        }
    }
}

/// Moves `size` elements from `source` to `target`, which does not lie before it; the two ranges
/// may overlap.
fn move_up<T: Copy>(storage: &mut Vec<T>, source: usize, target: usize, size: usize)
    requires
        source <= target,
        target + size <= old(storage)@.len(),
    ensures
        final(storage)@.len() == old(storage)@.len(),
        forall|i: int|
            target <= i < target + size ==> #[trigger] final(storage)@[i] == old(storage)@[i - target
                + source],
        forall|i: int|
            0 <= i < old(storage)@.len() && !(target <= i < target + size) ==> #[trigger] final(
                storage)@[i] == old(storage)@[i],
{
    let available: usize = storage.len();
    let mut r: usize = size;
    while r > 0
        invariant
            r <= size,
            source <= target,
            target + size <= storage@.len() == available,
            storage@.len() == old(storage)@.len(),
            forall|i: int|
                target + r <= i < target + size ==> #[trigger] storage@[i] == old(storage)@[i
                    - target + source],
            forall|i: int|
                0 <= i < storage@.len() && !(target + r <= i < target + size)
                    ==> #[trigger] storage@[i] == old(storage)@[i],
        decreases r,
    {
        r -= 1;
        storage[target + r] = storage[source + r];
    }
}

} // verus!
