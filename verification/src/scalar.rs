//! Scalars of a plan as bit patterns, and the recasting of one allocation between reals and
//! complex pairs.

use vstd::layout::size_of;
use vstd::prelude::*;

verus! {

/// A complex value as it lies in memory: the real part, then the imaginary part.
pub type Complex<R> = [R; 2];

/// The scalars of `values` in memory order, two for each complex value.
pub open spec fn flatten<R>(values: Seq<Complex<R>>) -> Seq<R> {
    Seq::new(2 * values.len(), |i: int| values[i / 2]@[i % 2])
}

/// The pairs of consecutive scalars.
pub open spec fn pairs_of<R>(scalars: Seq<R>) -> Seq<Complex<R>> {
    Seq::new(scalars.len() / 2, |i: int| [scalars[2 * i], scalars[2 * i + 1]])
}

/// Pairing an even number of scalars loses nothing.
pub proof fn law_pairing_loses_nothing<R>(scalars: Seq<R>)
    ensures
        scalars.len() % 2 == 0 ==> flatten(pairs_of(scalars)) == scalars,
        pairs_of(scalars).len() == scalars.len() / 2,
{
    if scalars.len() % 2 == 0 {
        assert forall|i: int| 0 <= i < scalars.len() implies #[trigger] flatten(pairs_of(scalars))[i]
            == scalars[i] by {
            let pair: Complex<R> = [scalars[2 * (i / 2)], scalars[2 * (i / 2) + 1]];
            assert(pairs_of(scalars)[i / 2] == pair);
            assert(pair@ =~= seq![scalars[2 * (i / 2)], scalars[2 * (i / 2) + 1]]);
        }
        assert(flatten(pairs_of(scalars)) =~= scalars);
    }
}

/// Complex values are the pairs of their scalars.
pub proof fn law_pairs_flatten<R>(values: Seq<Complex<R>>)
    ensures
        pairs_of(flatten(values)) == values,
        flatten(values).len() % 2 == 0,
{
    assert forall|i: int| 0 <= i < values.len() implies #[trigger] pairs_of(flatten(values))[i]
        == values[i] by {
        let scalars = flatten(values);
        let pair: Complex<R> = [scalars[2 * i], scalars[2 * i + 1]];
        assert(scalars[2 * i] == values[i]@[0]);
        assert(scalars[2 * i + 1] == values[i]@[1]);
        assert(pair@ =~= values[i]@);
        assert(pair =~= values[i]);
    }
    assert(pairs_of(flatten(values)) =~= values);
}

/// The bytes of a pair, by `core::mem::size_of`.
///
/// Claimed: an array has the bytes of its elements and no others.
#[verifier::external_body]
pub(crate) fn pair_size<T>() -> (bytes: usize)
    ensures
        bytes == size_of::<Complex<T>>(),
        bytes == 2 * size_of::<T>(),
{
    core::mem::size_of::<Complex<T>>()
}

/// Recasts a vector of double precision scalars into pairs, in the same allocation, by
/// `bytemuck::allocation::try_cast_vec`.
///
/// Claimed: a success keeps every scalar in its place; a failure hands the vector back; an odd
/// number of scalars always fails. Whether an even number succeeds also rests on the capacity
/// that the allocator gave, which no contract speaks of.
#[verifier::external_body]
fn recast_to_pairs_64(values: Vec<u64>) -> (result: Result<Vec<Complex<u64>>, Vec<u64>>)
    ensures
        match result {
            Ok(pairs) => flatten(pairs@) == values@,
            Err(same) => same@ == values@,
        },
        values@.len() % 2 != 0 ==> result is Err,
{
    bytemuck::allocation::try_cast_vec(values).map_err(|failure| failure.1)
}

/// Recasts a vector of single precision scalars into pairs, in the same allocation, by
/// `bytemuck::allocation::try_cast_vec`; the claims are those of [`recast_to_pairs_64`].
#[verifier::external_body]
fn recast_to_pairs_32(values: Vec<u32>) -> (result: Result<Vec<Complex<u32>>, Vec<u32>>)
    ensures
        match result {
            Ok(pairs) => flatten(pairs@) == values@,
            Err(same) => same@ == values@,
        },
        values@.len() % 2 != 0 ==> result is Err,
{
    bytemuck::allocation::try_cast_vec(values).map_err(|failure| failure.1)
}

/// Recasts a vector of double precision pairs into scalars, in the same allocation, by
/// `bytemuck::allocation::try_cast_vec`.
///
/// Claimed: it succeeds, because a pair has the alignment of its scalars and a multiple of their
/// size, and every scalar keeps its place.
#[verifier::external_body]
fn recast_to_scalars_64(values: Vec<Complex<u64>>) -> (result: Result<Vec<u64>, Vec<Complex<u64>>>)
    ensures
        result is Ok,
        result->Ok_0@ == flatten(values@),
{
    bytemuck::allocation::try_cast_vec(values).map_err(|failure| failure.1)
}

/// Recasts a vector of single precision pairs into scalars, in the same allocation, by
/// `bytemuck::allocation::try_cast_vec`; the claims are those of [`recast_to_scalars_64`].
#[verifier::external_body]
fn recast_to_scalars_32(values: Vec<Complex<u32>>) -> (result: Result<Vec<u32>, Vec<Complex<u32>>>)
    ensures
        result is Ok,
        result->Ok_0@ == flatten(values@),
{
    bytemuck::allocation::try_cast_vec(values).map_err(|failure| failure.1)
}

/// Views double precision pairs as scalars, by `bytemuck::try_cast_slice`.
///
/// Claimed: it succeeds, and the view holds the scalars of the pairs in memory order.
#[verifier::external_body]
fn scalar_view_64(values: &[Complex<u64>]) -> (result: Option<&[u64]>)
    ensures
        result is Some,
        result->0@ == flatten(values@),
{
    bytemuck::try_cast_slice(values).ok()
}

/// Views single precision pairs as scalars, by `bytemuck::try_cast_slice`; the claims are those
/// of [`scalar_view_64`].
#[verifier::external_body]
fn scalar_view_32(values: &[Complex<u32>]) -> (result: Option<&[u32]>)
    ensures
        result is Some,
        result->0@ == flatten(values@),
{
    bytemuck::try_cast_slice(values).ok()
}

/// Views double precision scalars as pairs, by `bytemuck::try_cast_slice`.
///
/// Claimed: it succeeds exactly on an even number of scalars, and the pairs hold the scalars in
/// memory order.
#[verifier::external_body]
fn pair_view_64(values: &[u64]) -> (result: Option<&[Complex<u64>]>)
    ensures
        result is Some <==> values@.len() % 2 == 0,
        result is Some ==> flatten(result->0@) == values@,
{
    bytemuck::try_cast_slice(values).ok()
}

/// Views single precision scalars as pairs, by `bytemuck::try_cast_slice`; the claims are those
/// of [`pair_view_64`].
#[verifier::external_body]
fn pair_view_32(values: &[u32]) -> (result: Option<&[Complex<u32>]>)
    ensures
        result is Some <==> values@.len() % 2 == 0,
        result is Some ==> flatten(result->0@) == values@,
{
    bytemuck::try_cast_slice(values).ok()
}

/// A floating point scalar as the bit pattern that its memory holds: `u32` for single and `u64`
/// for double precision.
pub trait FftReal: Copy {
    /// Bytes of one scalar.
    spec fn bytes() -> nat;

    /// The bit pattern of positive zero.
    spec fn zero_bits() -> Self;

    /// A scalar has four or eight bytes.
    proof fn lemma_bytes()
        ensures
            Self::bytes() == 4 || Self::bytes() == 8,
            size_of::<Self>() == Self::bytes(),
    ;

    /// Returns the bytes of one scalar.
    fn scalar_bytes() -> (bytes: usize)
        ensures
            bytes == Self::bytes(),
            bytes == 4 || bytes == 8,
    ;

    /// Returns the bit pattern of positive zero.
    fn zero() -> (zero: Self)
        ensures
            zero == Self::zero_bits(),
    ;

    /// Recasts scalars into pairs in the same allocation, or hands them back.
    fn recast_to_pairs(values: Vec<Self>) -> (result: Result<Vec<Complex<Self>>, Vec<Self>>)
        ensures
            match result {
                Ok(pairs) => flatten(pairs@) == values@,
                Err(same) => same@ == values@,
            },
            values@.len() % 2 != 0 ==> result is Err,
    ;

    /// Recasts pairs into scalars in the same allocation.
    fn recast_to_scalars(values: Vec<Complex<Self>>) -> (result: Result<Vec<Self>, Vec<Complex<Self>>>)
        ensures
            result is Ok,
            result->Ok_0@ == flatten(values@),
    ;

    /// Views pairs as scalars.
    fn scalar_view(values: &[Complex<Self>]) -> (result: Option<&[Self]>)
        ensures
            result is Some,
            result->0@ == flatten(values@),
    ;

    /// Views scalars as pairs.
    fn pair_view(values: &[Self]) -> (result: Option<&[Complex<Self>]>)
        ensures
            result is Some <==> values@.len() % 2 == 0,
            result is Some ==> flatten(result->0@) == values@,
    ;
}

impl FftReal for u64 {
    open spec fn bytes() -> nat {
        8
    }

    proof fn lemma_bytes() {
        broadcast use vstd::layout::layout_of_primitives;

    }

    open spec fn zero_bits() -> u64 {
        0
    }

    fn scalar_bytes() -> (bytes: usize) {
        8
    }

    fn zero() -> (zero: u64) {
        0
    }

    fn recast_to_pairs(values: Vec<u64>) -> (result: Result<Vec<Complex<u64>>, Vec<u64>>) {
        recast_to_pairs_64(values)
    }

    fn recast_to_scalars(values: Vec<Complex<u64>>) -> (result: Result<Vec<u64>, Vec<Complex<u64>>>) {
        recast_to_scalars_64(values)
    }

    fn scalar_view(values: &[Complex<u64>]) -> (result: Option<&[u64]>) {
        scalar_view_64(values)
    }

    fn pair_view(values: &[u64]) -> (result: Option<&[Complex<u64>]>) {
        pair_view_64(values)
    }
}

impl FftReal for u32 {
    open spec fn bytes() -> nat {
        4
    }

    proof fn lemma_bytes() {
        broadcast use vstd::layout::layout_of_primitives;

    }

    open spec fn zero_bits() -> u32 {
        0
    }

    fn scalar_bytes() -> (bytes: usize) {
        4
    }

    fn zero() -> (zero: u32) {
        0
    }

    fn recast_to_pairs(values: Vec<u32>) -> (result: Result<Vec<Complex<u32>>, Vec<u32>>) {
        recast_to_pairs_32(values)
    }

    fn recast_to_scalars(values: Vec<Complex<u32>>) -> (result: Result<Vec<u32>, Vec<Complex<u32>>>) {
        recast_to_scalars_32(values)
    }

    fn scalar_view(values: &[Complex<u32>]) -> (result: Option<&[u32]>) {
        scalar_view_32(values)
    }

    fn pair_view(values: &[u32]) -> (result: Option<&[Complex<u32>]>) {
        pair_view_32(values)
    }
}

/// A value that a real-to-real transform works on: a scalar, or a pair of them.
pub trait R2rScalar: Copy {
    /// The scalar that it is made of.
    type Real: FftReal;

    /// The zero.
    spec fn zero_value() -> Self;

    /// The descriptor word of such values.
    spec fn spec_value_kind() -> u64;

    /// Returns the zero.
    fn r2r_zero() -> (zero: Self)
        ensures
            zero == Self::zero_value(),
    ;

    /// Returns the descriptor word of such values.
    fn value_kind() -> (word: u64)
        ensures
            word == Self::spec_value_kind(),
    ;
}

impl R2rScalar for u64 {
    type Real = u64;

    open spec fn zero_value() -> u64 {
        0
    }

    open spec fn spec_value_kind() -> u64 {
        3
    }

    fn value_kind() -> (word: u64) {
        3
    }

    fn r2r_zero() -> (zero: u64) {
        0
    }
}

impl R2rScalar for u32 {
    type Real = u32;

    open spec fn zero_value() -> u32 {
        0
    }

    open spec fn spec_value_kind() -> u64 {
        3
    }

    fn value_kind() -> (word: u64) {
        3
    }

    fn r2r_zero() -> (zero: u32) {
        0
    }
}

impl R2rScalar for [u64; 2] {
    type Real = u64;

    open spec fn zero_value() -> [u64; 2] {
        [0u64, 0u64]
    }

    open spec fn spec_value_kind() -> u64 {
        4
    }

    fn value_kind() -> (word: u64) {
        4
    }

    fn r2r_zero() -> (zero: [u64; 2]) {
        let zero: [u64; 2] = [0, 0];
        assert(zero@ =~= [0u64, 0u64]@);
        zero
    }
}

impl R2rScalar for [u32; 2] {
    type Real = u32;

    open spec fn zero_value() -> [u32; 2] {
        [0u32, 0u32]
    }

    open spec fn spec_value_kind() -> u64 {
        4
    }

    fn value_kind() -> (word: u64) {
        4
    }

    fn r2r_zero() -> (zero: [u32; 2]) {
        let zero: [u32; 2] = [0, 0];
        assert(zero@ =~= [0u32, 0u32]@);
        zero
    }
}

} // verus!
