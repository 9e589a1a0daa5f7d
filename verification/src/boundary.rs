//! The constrained planes of a half-complex spectrum: where they lie, how they are made exactly
//! real, and how deep the transforms are that their tolerance grows with.

use vstd::arithmetic::power2::lemma2_to64;
use vstd::arithmetic::power2::lemma_pow2_unfold;
use vstd::arithmetic::power2::pow2;
use vstd::prelude::*;

use crate::error::FftError;
use crate::error::MixedError;
use crate::layout::strided_line_count;
use crate::layout::AxisSelection;
use crate::local::MixedComplexLocal;
use crate::local::MixedR2cStageLocal;
use crate::local::MixedR2rLocal;
use crate::scalar::Complex;
use crate::scalar::FftReal;

verus! {

/// The plane that a frequency is constrained to: the mean, or the highest frequency of an even
/// number of reals.
pub open spec fn plane_of(frequency: int, real_len: int, complex_len: int) -> Option<usize> {
    if frequency == 0 {
        Some(0)
    } else if real_len % 2 == 0 && frequency == complex_len - 1 {
        Some(1)
    } else {
        None
    }
}

/// Number of constrained planes.
pub open spec fn spec_plane_count(real_len: int) -> int {
    if real_len % 2 == 0 {
        2
    } else {
        1
    }
}

/// Returns the number of constrained planes.
pub fn plane_count(real_len: usize) -> (count: usize)
    ensures
        count == spec_plane_count(real_len as int),
{
    if real_len % 2 == 0 {
        2
    } else {
        1
    }
}

/// How the reduced axis lies in a local block.
#[derive(Clone, Copy, Debug)]
pub struct ReducedAxis {
    /// Distance between neighbours along the axis.
    pub stride: usize,
    /// Extent of the axis in the local block.
    pub local_axis_len: usize,
    /// First frequency of the local block.
    pub global_axis_start: usize,
    /// Reals of a line.
    pub real_len: usize,
    /// Complex values of a line.
    pub complex_len: usize,
}

impl ReducedAxis {
    /// The axis can be divided by, and its frequencies can be counted.
    pub open spec fn wf(&self) -> bool {
        &&& self.stride > 0
        &&& self.local_axis_len > 0
        &&& self.complex_len > 0
        &&& self.global_axis_start + self.local_axis_len <= usize::MAX
    }

    /// Frequency of the element at `offset` in the local block.
    pub open spec fn frequency(&self, offset: int) -> int {
        self.global_axis_start + (offset / self.stride as int) % self.local_axis_len as int
    }

    /// Plane of the element at `offset` in the local block.
    pub open spec fn plane(&self, offset: int) -> Option<usize> {
        plane_of(self.frequency(offset), self.real_len as int, self.complex_len as int)
    }

    /// Returns the plane that the element at `offset` is constrained to.
    pub fn constrained_plane(&self, offset: usize) -> (plane: Option<usize>)
        requires
            self.wf(),
        ensures
            plane == self.plane(offset as int),
    {
        let coordinate: usize = (offset / self.stride) % self.local_axis_len;
        let frequency: usize = self.global_axis_start + coordinate;
        if frequency == 0 {
            Some(0)
        } else if self.real_len % 2 == 0 && frequency == self.complex_len - 1 {
            Some(1)
        } else {
            None
        }
    }
}

/// Every local block of a batch has its constrained elements made real, and no other element
/// changed.
pub open spec fn endpoints_zeroed<R: FftReal>(
    axis: ReducedAxis,
    original: Seq<Complex<R>>,
    result: Seq<Complex<R>>,
    local_len: int,
    batches: int,
) -> bool {
    &&& result.len() == original.len()
    &&& forall|i: int|
        #![trigger result[i]]
        0 <= i < original.len() ==> if i < batches * local_len && axis.plane(i % local_len) is Some {
            result[i]@ == seq![original[i]@[0], R::zero_bits()]
        } else {
            result[i] == original[i]
        }
}

/// Makes the constrained elements of every local block real.
pub fn zero_accepted_boundary<R: FftReal>(
    axis: &ReducedAxis,
    data: &mut [Complex<R>],
    local_len: usize,
    batches: usize,
)
    requires
        local_len > 0 ==> axis.wf(),
        batches * local_len <= old(data)@.len(),
    ensures
        endpoints_zeroed::<R>(
            *axis,
            old(data)@,
            final(data)@,
            local_len as int,
            batches as int,
        ),
{
    if local_len == 0 {
        assert(batches * local_len == 0) by (nonlinear_arith)
            requires
                local_len == 0,
        ;
        return;
    }
    let available: usize = data.len();
    let mut batch: usize = 0;
    while batch < batches
        invariant
            local_len > 0,
            axis.wf(),
            batch <= batches,
            batches * local_len <= data@.len() == available,
            endpoints_zeroed::<R>(*axis, old(data)@, data@, local_len as int, batch as int),
        decreases batches - batch,
    {
        proof {
            assert(batch * local_len + local_len <= batches * local_len && 0 <= batch * local_len)
                by (nonlinear_arith)
                requires
                    batch + 1 <= batches,
                    local_len >= 0,
                    batch >= 0,
            ;
        }
        let start: usize = batch * local_len;
        let mut offset: usize = 0;
        while offset < local_len
            invariant
                local_len > 0,
                axis.wf(),
                batch < batches,
                start == batch * local_len,
                offset <= local_len,
                start + local_len <= batches * local_len <= data@.len() == available,
                data@.len() == old(data)@.len(),
                forall|i: int|
                    #![trigger data@[i]]
                    0 <= i < data@.len() ==> if i < start + offset && axis.plane(
                        i % local_len as int,
                    ) is Some {
                        data@[i]@ == seq![old(data)@[i]@[0], R::zero_bits()]
                    } else {
                        data@[i] == old(data)@[i]
                    },
            decreases local_len - offset,
        {
            proof {
                vstd::arithmetic::div_mod::lemma_fundamental_div_mod_converse(
                    start + offset,
                    local_len as int,
                    batch as int,
                    offset as int,
                );
            }
            if axis.constrained_plane(offset).is_some() {
                let value: Complex<R> = data[start + offset];
                let zeroed: Complex<R> = [value[0], R::zero()];
                assert(zeroed@ =~= seq![value@[0], R::zero_bits()]);
                data[start + offset] = zeroed;
            }
            offset += 1;
        }
        proof {
            assert((batch + 1) * local_len == batch * local_len + local_len) by (nonlinear_arith);
        }
        batch += 1;
    }
}

/// Makes the constrained elements of every local block of a mixed plan real. The reduced axis is
/// whole in every block.
pub fn zero_mixed_boundary_data<R: FftReal>(
    real_len: usize,
    complex_len: usize,
    local_len: usize,
    stride: usize,
    batches: usize,
    data: &mut [Complex<R>],
) -> (result: Result<(), MixedError>)
    requires
        batches * local_len <= old(data)@.len(),
    ensures
        match result {
            Ok(_) => {
                &&& 0 < complex_len * stride <= usize::MAX
                &&& local_len as int % (complex_len * stride) == 0
                &&& endpoints_zeroed::<R>(
                    (ReducedAxis {
                        stride,
                        local_axis_len: complex_len,
                        global_axis_start: 0,
                        real_len,
                        complex_len,
                    }),
                    old(data)@,
                    final(data)@,
                    local_len as int,
                    batches as int,
                )
            },
            Err(error) => {
                &&& error == MixedError::Fft(FftError::PreparationFailed)
                &&& complex_len * stride == 0 || complex_len * stride > usize::MAX
                    || local_len as int % (complex_len * stride) != 0
                &&& final(data)@ == old(data)@
            },
        },
{
    match strided_line_count(local_len, complex_len, stride) {
        Ok(_) => {},
        Err(error) => {
            return Err(MixedError::Fft(error));
        },
    }
    assert(complex_len > 0 && stride > 0) by (nonlinear_arith)
        requires
            complex_len * stride > 0,
            complex_len >= 0,
            stride >= 0,
    ;
    let axis = ReducedAxis {
        stride,
        local_axis_len: complex_len,
        global_axis_start: 0,
        real_len,
        complex_len,
    };
    zero_accepted_boundary(&axis, data, local_len, batches);
    Ok(())
}

/// Zeroing a second time changes nothing: an accepted spectrum stays as it is.
pub proof fn law_zeroing_idempotent<R: FftReal>(
    axis: ReducedAxis,
    original: Seq<Complex<R>>,
    once: Seq<Complex<R>>,
    twice: Seq<Complex<R>>,
    local_len: int,
    batches: int,
)
    requires
        endpoints_zeroed::<R>(axis, original, once, local_len, batches),
        endpoints_zeroed::<R>(axis, once, twice, local_len, batches),
    ensures
        twice == once,
{
    assert forall|i: int| 0 <= i < once.len() implies #[trigger] twice[i] == once[i] by {
        assert(once[i] == once[i]);
        if i < batches * local_len && axis.plane(i % local_len) is Some {
            assert(twice[i]@ =~= once[i]@);
            assert(twice[i] =~= once[i]);
        }
    }
    assert(twice =~= once);
}

/// The number of bits of `value`.
pub open spec fn is_bit_length(value: int, bits: nat) -> bool {
    &&& value < pow2(bits)
    &&& bits > 0 ==> pow2((bits - 1) as nat) <= value
}

/// Returns the exponent of the smallest power of two that is no less than `length`.
pub fn ceil_log2_len(length: usize) -> (exponent: u32)
    ensures
        exponent <= 64,
        length <= 1 ==> exponent == 0,
        length > 1 ==> is_bit_length(length - 1, exponent as nat),
        length <= pow2(exponent as nat),
        exponent > 0 ==> pow2((exponent - 1) as nat) < length,
{
    proof {
        lemma2_to64();
    }
    if length <= 1 {
        return 0;
    }
    let target: usize = length - 1;
    let mut remaining: usize = target;
    let mut exponent: u32 = 0;
    proof {
        assert(pow2(0) == 1);
    }
    while remaining > 0
        invariant
            target == length - 1,
            target > 0,
            exponent <= 64,
            remaining * pow2(exponent as nat) <= target,
            target < (remaining + 1) * pow2(exponent as nat),
            exponent > 0 ==> remaining <= target && pow2((exponent - 1) as nat) <= target,
            exponent == 0 ==> remaining == target,
        decreases remaining,
    {
        proof {
            lemma2_to64();
            lemma_pow2_unfold((exponent + 1) as nat);
            let p = pow2(exponent as nat) as int;
            let half = remaining as int / 2;
            assert(half * (2 * p) <= remaining * p) by (nonlinear_arith)
                requires
                    2 * half <= remaining,
                    0 <= p,
            ;
            assert((remaining + 1) * p <= (half + 1) * (2 * p)) by (nonlinear_arith)
                requires
                    remaining + 1 <= 2 * (half + 1),
                    0 <= p,
            ;
            assert(p <= remaining * p) by (nonlinear_arith)
                requires
                    1 <= remaining,
                    0 <= p,
            ;
            if exponent == 64 {
                assert(pow2(64) == 0x10000000000000000);
                assert(false);
            }
        }
        remaining = remaining / 2;
        exponent += 1;
    }
    proof {
        let p = pow2(exponent as nat) as int;
        assert((remaining + 1) * p == p) by (nonlinear_arith)
            requires
                remaining == 0,
        ;
    }
    exponent
}

/// Depth of the transforms of the selected axes below `bound`: one, and for each axis the
/// exponent of its power of two.
pub open spec fn is_depth<const N: usize>(
    shape: Seq<usize>,
    selection: AxisSelection<N>,
    bound: nat,
    exponents: Seq<nat>,
    depth: int,
) -> bool {
    &&& exponents.len() == bound
    &&& forall|axis: int|
        0 <= axis < bound ==> if selection.spec_contains(axis) && shape[axis] > 1 {
            is_bit_length(shape[axis] - 1, #[trigger] exponents[axis])
        } else {
            exponents[axis] == 0
        }
    &&& depth == 1 + sum_of(exponents)
}

/// Sum of natural numbers.
pub open spec fn sum_of(values: Seq<nat>) -> nat
    decreases values.len(),
{
    if values.len() == 0 {
        0
    } else {
        sum_of(values.drop_last()) + values.last()
    }
}

/// Returns the depth of the complex transforms below the reduction axis.
pub fn normalization_depth<const N: usize>(
    shape: &[usize; N],
    selection: &AxisSelection<N>,
    reduction_axis: usize,
) -> (depth: u64)
    requires
        reduction_axis <= N,
        N <= 0xffff_ffff,
    ensures
        exists|exponents: Seq<nat>| #[trigger]
            is_depth(shape@, *selection, reduction_axis as nat, exponents, depth as int),
{
    let mut depth: u64 = 1;
    let ghost mut exponents: Seq<nat> = Seq::empty();
    let mut axis: usize = 0;
    while axis < reduction_axis
        invariant
            axis <= reduction_axis <= N,
            N <= 0xffff_ffff,
            depth <= 1 + 64 * axis,
            is_depth(shape@, *selection, axis as nat, exponents, depth as int),
        decreases reduction_axis - axis,
    {
        let ghost earlier = exponents;
        if selection.contains(axis) && shape[axis] > 1 {
            let exponent: u32 = ceil_log2_len(shape[axis]);
            depth = depth + exponent as u64;
            proof {
                exponents = exponents.push(exponent as nat);
            }
        } else {
            proof {
                exponents = exponents.push(0);
            }
        }
        proof {
            assert(exponents.drop_last() =~= earlier);
            assert forall|a: int| 0 <= a < axis + 1 implies if selection.spec_contains(a)
                && shape@[a] > 1 {
                is_bit_length(shape@[a] - 1, #[trigger] exponents[a])
            } else {
                exponents[a] == 0
            } by {
                if a < axis {
                    assert(exponents[a] == earlier[a]);
                }
            }
        }
        axis += 1;
    }
    depth
}

/// Extents of the selected axes below `bound`, whose product scales the raw tolerance.
pub open spec fn selected_extents<const N: usize>(
    shape: Seq<usize>,
    selection: AxisSelection<N>,
    bound: nat,
) -> Seq<usize>
    decreases bound,
{
    if bound == 0 {
        Seq::empty()
    } else {
        let front = selected_extents(shape, selection, (bound - 1) as nat);
        if selection.spec_contains(bound - 1) {
            front.push(shape[bound - 1])
        } else {
            front
        }
    }
}

/// Returns the extents of the selected axes below the reduction axis.
pub fn transverse_extents<const N: usize>(
    shape: &[usize; N],
    selection: &AxisSelection<N>,
    reduction_axis: usize,
) -> (extents: Vec<usize>)
    requires
        reduction_axis <= N,
    ensures
        extents@ == selected_extents(shape@, *selection, reduction_axis as nat),
{
    let mut extents: Vec<usize> = Vec::new();
    let mut axis: usize = 0;
    while axis < reduction_axis
        invariant
            axis <= reduction_axis <= N,
            extents@ == selected_extents(shape@, *selection, axis as nat),
        decreases reduction_axis - axis,
    {
        if selection.contains(axis) {
            extents.push(shape[axis]);
        }
        axis += 1;
    }
    extents
}

/// What one complex stage adds to the tolerance of a mixed plan.
#[derive(Clone, Copy, Debug, PartialEq, Eq, Structural)]
pub struct DepthTerm {
    /// Length whose power of two counts.
    pub native_len: usize,
    /// Factor of the raw way there and back.
    pub factor: usize,
    /// Extra depth.
    pub allowance: u64,
}

/// What a stage behind the boundary adds to the tolerance; real stages and stages without a
/// transform add nothing.
pub open spec fn spec_depth_term(local: MixedR2cStageLocal) -> Option<DepthTerm> {
    match local {
        MixedR2cStageLocal::Real(_) => None,
        MixedR2cStageLocal::Complex(MixedComplexLocal::Identity) => None,
        MixedR2cStageLocal::Complex(MixedComplexLocal::Fft(plan)) => Some(
            DepthTerm { native_len: plan.line_len, factor: plan.line_len, allowance: 0 },
        ),
        MixedR2cStageLocal::Complex(MixedComplexLocal::R2r(plan)) => Some(
            DepthTerm {
                native_len: plan.plan().embedding_len,
                factor: plan.plan().normalization_factor,
                allowance: 2,
            },
        ),
    }
}

/// Returns what a stage behind the boundary adds to the tolerance.
pub fn depth_term(local: &MixedR2cStageLocal) -> (term: Option<DepthTerm>)
    ensures
        term == spec_depth_term(*local),
{
    match local {
        MixedR2cStageLocal::Real(_) => None,
        MixedR2cStageLocal::Complex(MixedComplexLocal::Identity) => None,
        MixedR2cStageLocal::Complex(MixedComplexLocal::Fft(plan)) => Some(
            DepthTerm { native_len: plan.line_len, factor: plan.line_len, allowance: 0 },
        ),
        MixedR2cStageLocal::Complex(MixedComplexLocal::R2r(plan)) => {
            let lens = match plan {
                MixedR2rLocal::Transform(lens) => *lens,
                MixedR2rLocal::Hartley(lens) => *lens,
            };
            Some(
                DepthTerm {
                    native_len: lens.embedding_len,
                    factor: lens.normalization_factor,
                    allowance: 2,
                },
            )
        },
    }
}

/// Terms of the stages, in order.
pub open spec fn terms_of(locals: Seq<MixedR2cStageLocal>) -> Seq<DepthTerm>
    decreases locals.len(),
{
    if locals.len() == 0 {
        Seq::empty()
    } else {
        let front = terms_of(locals.drop_last());
        match spec_depth_term(locals.last()) {
            Some(term) => front.push(term),
            None => front,
        }
    }
}

/// Returns what the stages behind the boundary add to the tolerance of a mixed plan.
pub fn mixed_endpoint_terms(locals: &Vec<MixedR2cStageLocal>, boundary: usize) -> (terms: Vec<
    DepthTerm,
>)
    requires
        boundary < locals@.len(),
    ensures
        terms@ == terms_of(locals@.skip(boundary + 1)),
        forall|i: int| 0 <= i < terms@.len() ==> (#[trigger] terms@[i]).allowance <= 2,
{
    let ghost tail = locals@.skip(boundary + 1);
    let mut terms: Vec<DepthTerm> = Vec::new();
    let count: usize = locals.len();
    assert(boundary < count);
    let mut i: usize = boundary + 1;
    assert(tail.take(0) =~= Seq::<MixedR2cStageLocal>::empty());
    while i < locals.len()
        invariant
            boundary < i <= locals@.len(),
            tail == locals@.skip(boundary + 1),
            terms@ == terms_of(tail.take(i - boundary - 1)),
            forall|i: int| 0 <= i < terms@.len() ==> (#[trigger] terms@[i]).allowance <= 2,
        decreases locals@.len() - i,
    {
        proof {
            let k = i - boundary - 1;
            assert(tail.take(k + 1).drop_last() =~= tail.take(k));
            assert(tail.take(k + 1).last() == locals@[i as int]);
        }
        match depth_term(&locals[i]) {
            Some(term) => {
                terms.push(term);
            },
            None => {},
        }
        i += 1;
    }
    assert(tail.take(i - boundary - 1) =~= tail);
    terms
}

/// Sum of the extra depths.
pub open spec fn allowances_of(terms: Seq<DepthTerm>) -> nat
    decreases terms.len(),
{
    if terms.len() == 0 {
        0
    } else {
        allowances_of(terms.drop_last()) + terms.last().allowance as nat
    }
}

/// Depth of the stages behind the boundary of a mixed plan: one, and for each stage the exponent of
/// its power of two and its extra depth.
pub open spec fn is_terms_depth(terms: Seq<DepthTerm>, exponents: Seq<nat>, depth: int) -> bool {
    &&& exponents.len() == terms.len()
    &&& forall|i: int|
        0 <= i < terms.len() ==> if terms[i].native_len > 1 {
            is_bit_length(terms[i].native_len - 1, #[trigger] exponents[i])
        } else {
            exponents[i] == 0
        }
    &&& depth == 1 + sum_of(exponents) + allowances_of(terms)
}

/// Returns the depth of the stages behind the boundary of a mixed plan.
pub fn mixed_endpoint_depth(terms: &Vec<DepthTerm>) -> (depth: u64)
    requires
        terms@.len() <= 0xffff_ffff,
        forall|i: int| 0 <= i < terms@.len() ==> (#[trigger] terms@[i]).allowance <= 2,
    ensures
        exists|exponents: Seq<nat>| #[trigger] is_terms_depth(terms@, exponents, depth as int),
{
    let mut depth: u64 = 1;
    let ghost mut exponents: Seq<nat> = Seq::empty();
    let mut index: usize = 0;
    assert(terms@.take(0) =~= Seq::<DepthTerm>::empty());
    while index < terms.len()
        invariant
            index <= terms@.len() <= 0xffff_ffff,
            forall|i: int| 0 <= i < terms@.len() ==> (#[trigger] terms@[i]).allowance <= 2,
            depth <= 1 + 66 * index,
            is_terms_depth(terms@.take(index as int), exponents, depth as int),
        decreases terms@.len() - index,
    {
        let term: DepthTerm = terms[index];
        let exponent: u32 = ceil_log2_len(term.native_len);
        let ghost earlier = exponents;
        let ghost before = terms@.take(index as int);
        depth = depth + exponent as u64 + term.allowance;
        proof {
            exponents = exponents.push(exponent as nat);
            let longer = terms@.take(index + 1);
            assert(exponents.drop_last() =~= earlier);
            assert(longer.drop_last() =~= before);
            assert(longer.last() == term);
            assert forall|i: int| 0 <= i < longer.len() implies if longer[i].native_len > 1 {
                is_bit_length(longer[i].native_len - 1, #[trigger] exponents[i])
            } else {
                exponents[i] == 0
            } by {
                if i < index {
                    assert(exponents[i] == earlier[i]);
                    assert(longer[i] == before[i]);
                }
            }
        }
        index += 1;
    }
    assert(terms@.take(index as int) =~= terms@);
    depth
}

} // verus!
