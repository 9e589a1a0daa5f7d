//! Shapes, pencils and the policies of a plan.

use vstd::prelude::*;

use crate::error::FftError;
use crate::error::PencilError;

verus! {

/// Product of the extents of `shape`.
pub open spec fn product(shape: Seq<usize>) -> nat
    decreases shape.len(),
{
    if shape.len() == 0 {
        1
    } else {
        shape[0] as nat * product(shape.skip(1))
    }
}

/// Splits a product at position `p`.
pub proof fn lemma_product_split(shape: Seq<usize>, p: int)
    requires
        0 <= p < shape.len(),
    ensures
        product(shape) == product(shape.take(p)) * shape[p] * product(shape.skip(p + 1)),
    decreases p,
{
    reveal_with_fuel(product, 2);
    if p == 0 {
        assert(shape.take(0) =~= Seq::<usize>::empty());
        assert(product(shape.take(0)) == 1);
        assert(1 * (shape[0] as int) * (product(shape.skip(1)) as int) == shape[0] * product(
            shape.skip(1),
        )) by (nonlinear_arith);
    } else {
        let tail = shape.skip(1);
        lemma_product_split(tail, p - 1);
        assert(tail.take(p - 1) =~= shape.take(p).skip(1));
        assert(tail.skip(p) =~= shape.skip(p + 1));
        assert(shape.take(p)[0] == shape[0]);
        let a = shape[0] as int;
        let b = product(tail.take(p - 1)) as int;
        let c = shape[p] as int;
        let d = product(shape.skip(p + 1)) as int;
        assert(product(shape.take(p)) == a * b);
        assert(a * (b * c * d) == a * b * c * d) by (nonlinear_arith);
    }
}

/// The two arrays hold the same numbers.
pub fn same_numbers<const K: usize>(left: &[usize; K], right: &[usize; K]) -> (same: bool)
    ensures
        same == (left@ == right@),
{
    let mut i: usize = 0;
    while i < K
        invariant
            i <= K,
            forall|j: int| 0 <= j < i ==> left@[j] == right@[j],
        decreases K - i,
    {
        if left[i] != right[i] {
            assert(left@[i as int] != right@[i as int]);
            return false;
        }
        i += 1;
    }
    assert(left@ =~= right@);
    true
}

/// How one rank's block of a distributed array lies in memory.
///
/// `memory_order` names the logical axes from the slowest to the fastest in memory.
#[derive(Clone, Copy, Debug)]
pub struct Pencil<const N: usize, const M: usize> {
    /// Identity of this pencil: two handles of one pencil share it.
    pub id: u64,
    /// Identity of the process topology.
    pub topology: u64,
    /// Extents of the whole array.
    pub global_shape: [usize; N],
    /// Axes that are distributed over the process grid.
    pub decomposition: [usize; M],
    /// Logical axes from the slowest to the fastest in memory.
    pub memory_order: [usize; N],
    /// Extents of this rank's block, by logical axis.
    pub local_shape: [usize; N],
    /// Elements of this rank's block.
    pub local_len: usize,
}

impl<const N: usize, const M: usize> Pencil<N, M> {
    /// Extents of the local block in memory order.
    pub open spec fn memory_extents(&self) -> Seq<usize> {
        Seq::new(N as nat, |p: int| self.local_shape@[self.memory_order@[p] as int])
    }

    /// Every axis that the pencil names exists, and `local_len` counts the local block.
    pub open spec fn wf(&self) -> bool {
        &&& forall|p: int| 0 <= p < N ==> #[trigger] self.memory_order@[p] < N
        &&& forall|p: int, q: int|
            0 <= p < q < N ==> #[trigger] self.memory_order@[p] != #[trigger] self.memory_order@[q]
        &&& forall|d: int| 0 <= d < M ==> #[trigger] self.decomposition@[d] < N
        &&& self.local_len == product(self.memory_extents())
    }

    /// The two pencils lay their arrays out alike.
    pub open spec fn spec_same_layout(&self, other: &Pencil<N, M>) -> bool {
        &&& self.topology == other.topology
        &&& self.global_shape@ == other.global_shape@
        &&& self.decomposition@ == other.decomposition@
        &&& self.memory_order@ == other.memory_order@
        &&& self.local_shape@ == other.local_shape@
    }

    /// `axis` is distributed over the process grid.
    pub open spec fn distributes(&self, axis: int) -> bool {
        exists|d: int| 0 <= d < M && #[trigger] self.decomposition@[d] == axis
    }

    /// Position of `axis` in memory order is `p`, and no earlier position holds it.
    pub open spec fn memory_position(&self, axis: int, p: int) -> bool {
        &&& 0 <= p < N
        &&& self.memory_order@[p] == axis
        &&& forall|q: int| 0 <= q < p ==> #[trigger] self.memory_order@[q] != axis
    }

    /// Every partial product behind position `p` fits a length.
    pub open spec fn strides_fit(&self, p: int) -> bool {
        forall|q: int|
            p < q <= N ==> product(#[trigger] self.memory_extents().skip(q)) <= usize::MAX
    }

    /// Distance in memory between neighbours along the axis at position `p`.
    pub open spec fn stride_behind(&self, p: int) -> nat {
        product(self.memory_extents().skip(p + 1))
    }

    /// Position of `axis` in memory order, if it occurs there.
    pub open spec fn axis_position(&self, axis: int) -> Option<int> {
        if exists|p: int| self.memory_position(axis, p) {
            Some(choose|p: int| self.memory_position(axis, p))
        } else {
            None
        }
    }

    /// Distance in memory between neighbours along `axis`, if it can be counted.
    pub open spec fn stride_along(&self, axis: int) -> Option<usize> {
        match self.axis_position(axis) {
            Some(p) => if self.strides_fit(p) {
                Some(self.stride_behind(p) as usize)
            } else {
                None
            },
            None => None,
        }
    }

    /// An axis has one position.
    pub proof fn lemma_axis_position(&self, axis: int, p: int)
        requires
            self.memory_position(axis, p),
        ensures
            self.axis_position(axis) == Some(p),
    {
        let found = choose|q: int| self.memory_position(axis, q);
        if found < p {
            assert(self.memory_order@[found] != axis);
        } else if found > p {
            assert(self.memory_order@[p] != axis);
        }
    }

    /// Whether the two pencils lay their arrays out alike.
    pub fn same_layout(&self, other: &Pencil<N, M>) -> (same: bool)
        ensures
            same == self.spec_same_layout(other),
    {
        self.topology == other.topology && same_numbers(&self.global_shape, &other.global_shape)
            && same_numbers(&self.decomposition, &other.decomposition) && same_numbers(
            &self.memory_order,
            &other.memory_order,
        ) && same_numbers(&self.local_shape, &other.local_shape)
    }

    /// Makes the pencil of a rank's block, if its axes exist and its length can be counted.
    pub fn from_parts(
        id: u64,
        topology: u64,
        global_shape: [usize; N],
        decomposition: [usize; M],
        memory_order: [usize; N],
        local_shape: [usize; N],
    ) -> (result: Result<Pencil<N, M>, PencilError>)
        ensures
            match result {
                Ok(pencil) => {
                    &&& pencil.wf()
                    &&& pencil.strides_fit(-1)
                    &&& pencil.id == id
                    &&& pencil.topology == topology
                    &&& pencil.global_shape == global_shape
                    &&& pencil.decomposition == decomposition
                    &&& pencil.memory_order == memory_order
                    &&& pencil.local_shape == local_shape
                },
                Err(error) => {
                    let named = Pencil {
                        id,
                        topology,
                        global_shape,
                        decomposition,
                        memory_order,
                        local_shape,
                        local_len: 0,
                    };
                    if error == PencilError::InvalidDecomposition {
                        ||| exists|p: int| 0 <= p < N && #[trigger] memory_order@[p] >= N
                        ||| exists|p: int, q: int|
                            0 <= p < q < N && #[trigger] memory_order@[p]
                                == #[trigger] memory_order@[q]
                        ||| exists|d: int| 0 <= d < M && #[trigger] decomposition@[d] >= N
                    } else {
                        error == PencilError::LengthOverflow && !named.strides_fit(-1)
                    }
                },
            },
    {
        let mut d: usize = 0;
        while d < M
            invariant
                d <= M,
                forall|j: int| 0 <= j < d ==> #[trigger] decomposition@[j] < N,
            decreases M - d,
        {
            if decomposition[d] >= N {
                assert(decomposition@[d as int] >= N);
                return Err(PencilError::InvalidDecomposition);
            }
            d += 1;
        }
        let mut p: usize = 0;
        while p < N
            invariant
                p <= N,
                forall|j: int| 0 <= j < p ==> #[trigger] memory_order@[j] < N,
                forall|i: int, j: int|
                    0 <= i < j < p ==> #[trigger] memory_order@[i] != #[trigger] memory_order@[j],
            decreases N - p,
        {
            if memory_order[p] >= N {
                assert(memory_order@[p as int] >= N);
                return Err(PencilError::InvalidDecomposition);
            }
            let mut q: usize = 0;
            while q < p
                invariant
                    q <= p < N,
                    forall|j: int|
                        0 <= j < q ==> #[trigger] memory_order@[j] != memory_order@[p as int],
                decreases p - q,
            {
                if memory_order[q] == memory_order[p] {
                    assert(memory_order@[q as int] == memory_order@[p as int]);
                    return Err(PencilError::InvalidDecomposition);
                }
                q += 1;
            }
            p += 1;
        }
        let mut pencil = Pencil {
            id,
            topology,
            global_shape,
            decomposition,
            memory_order,
            local_shape,
            local_len: 0,
        };
        let ghost named = pencil;
        match pencil.product_behind(0) {
            Some(local_len) => {
                assert(named.memory_extents().skip(0) =~= named.memory_extents());
                pencil.local_len = local_len;
                assert(pencil.memory_extents() =~= named.memory_extents());
                assert(pencil.strides_fit(-1)) by {
                    assert forall|q: int| -1 < q <= N implies product(
                        #[trigger] pencil.memory_extents().skip(q),
                    ) <= usize::MAX by {
                        assert(product(named.memory_extents().skip(q)) <= usize::MAX);
                    }
                }
                Ok(pencil)
            },
            None => Err(PencilError::LengthOverflow),
        }
    }

    /// Product of the extents from position `from` in memory order on, if all its partial
    /// products fit.
    fn product_behind(&self, from: usize) -> (result: Option<usize>)
        requires
            from <= N,
            forall|p: int| 0 <= p < N ==> #[trigger] self.memory_order@[p] < N,
        ensures
            result is Some <==> self.strides_fit(from - 1),
            result is Some ==> result->0 == product(self.memory_extents().skip(from as int)),
    {
        let ghost extents = self.memory_extents();
        let mut q: usize = N;
        let mut total: usize = 1;
        assert(extents.skip(N as int) =~= Seq::<usize>::empty());
        while q > from
            invariant
                from <= q <= N,
                extents == self.memory_extents(),
                forall|p: int| 0 <= p < N ==> #[trigger] self.memory_order@[p] < N,
                total == product(extents.skip(q as int)),
                forall|j: int| q <= j <= N ==> product(#[trigger] extents.skip(j)) <= usize::MAX,
            decreases q,
        {
            q -= 1;
            let extent: usize = self.local_shape[self.memory_order[q]];
            proof {
                assert(extents.skip(q as int)[0] == extent);
                assert(extents.skip(q as int).skip(1) =~= extents.skip(q + 1));
                assert(product(extents.skip(q as int)) == extent * total);
            }
            match extent.checked_mul(total) {
                Some(value) => {
                    total = value;
                },
                None => {
                    assert(product(self.memory_extents().skip(q as int)) > usize::MAX);
                    return None;
                },
            }
        }
        assert(self.strides_fit(from - 1)) by {
            assert forall|j: int| from - 1 < j <= N implies product(
                #[trigger] self.memory_extents().skip(j),
            ) <= usize::MAX by {
                assert(product(extents.skip(j)) <= usize::MAX);
            }
        }
        Some(total)
    }
}

/// Distance in memory between neighbours of `pencil` along `axis`.
pub fn memory_stride<const N: usize, const M: usize>(pencil: &Pencil<N, M>, axis: usize) -> (result:
    Result<usize, FftError>)
    requires
        pencil.wf(),
    ensures
        result == match pencil.stride_along(axis as int) {
            Some(stride) => Ok(stride),
            None => Err(FftError::PreparationFailed),
        },
{
    let mut p: usize = 0;
    while p < N
        invariant
            p <= N,
            pencil.wf(),
            forall|q: int| 0 <= q < p ==> #[trigger] pencil.memory_order@[q] != axis,
        decreases N - p,
    {
        if pencil.memory_order[p] == axis {
            proof {
                pencil.lemma_axis_position(axis as int, p as int);
            }
            return match pencil.product_behind(p + 1) {
                Some(stride) => {
                    assert(product(pencil.memory_extents().skip(p + 1)) <= usize::MAX);
                    Ok(stride)
                },
                None => Err(FftError::PreparationFailed),
            };
        }
        p += 1;
    }
    Err(FftError::PreparationFailed)
}

/// Number of blocks of interleaved lines in an array of `len` elements.
pub fn strided_line_count(len: usize, line_len: usize, stride: usize) -> (result: Result<
    usize,
    FftError,
>)
    ensures
        match result {
            Ok(count) => {
                &&& 0 < line_len * stride <= usize::MAX
                &&& count * line_len * stride == len
                &&& len as int % (line_len * stride) == 0
                &&& count == len as int / (line_len * stride)
            },
            Err(error) => error == FftError::PreparationFailed && (line_len * stride == 0 || line_len
                * stride > usize::MAX || len as int % (line_len * stride) != 0),
        },
{
    match line_len.checked_mul(stride) {
        Some(block) => {
            if block == 0 || len % block != 0 {
                return Err(FftError::PreparationFailed);
            }
            let count: usize = len / block;
            assert(count * line_len * stride == len) by (nonlinear_arith)
                requires
                    block == line_len * stride,
                    count as int == len as int / (block as int),
                    len as int % (block as int) == 0,
                    block > 0,
            ;
            Ok(count)
        },
        None => Err(FftError::PreparationFailed),
    }
}

/// The lines of an axis fill the local blocks of a batch exactly: counting them never fails.
pub proof fn law_lines_fill_block<const N: usize, const M: usize>(
    pencil: Pencil<N, M>,
    axis: int,
    p: int,
    batch: int,
)
    requires
        pencil.wf(),
        pencil.memory_position(axis, p),
        0 <= batch,
        pencil.stride_behind(p) > 0,
        pencil.local_shape@[axis] > 0,
    ensures
        (batch * pencil.local_len) % (pencil.local_shape@[axis] * pencil.stride_behind(p)) == 0,
        (batch * pencil.local_len) / (pencil.local_shape@[axis] * pencil.stride_behind(p)) == batch
            * product(pencil.memory_extents().take(p)),
{
    let extents = pencil.memory_extents();
    lemma_product_split(extents, p);
    let a = product(extents.take(p)) as int;
    let b = pencil.local_shape@[axis] as int;
    let c = pencil.stride_behind(p) as int;
    assert(batch * (a * b * c) == (batch * a) * (b * c)) by (nonlinear_arith);
    assert(b * c > 0) by (nonlinear_arith)
        requires
            b > 0,
            c > 0,
    ;
    vstd::arithmetic::div_mod::lemma_fundamental_div_mod_converse(
        batch * pencil.local_len,
        b * c,
        batch * a,
        0,
    );
}

/// Extra dimensions that every element of the spatial array carries.
#[derive(Debug)]
pub struct ExtraShape {
    /// Extents of the extra dimensions.
    pub dimensions: Vec<usize>,
    /// Product of the extents.
    pub element_count: usize,
}

impl ExtraShape {
    /// `element_count` counts the extra dimensions.
    pub open spec fn wf(&self) -> bool {
        self.element_count == product(self.dimensions@)
    }

    /// No extra dimension.
    pub fn scalar() -> (shape: ExtraShape)
        ensures
            shape.wf(),
            shape.dimensions@ == Seq::<usize>::empty(),
    {
        ExtraShape { dimensions: Vec::new(), element_count: 1 }
    }

    /// The given extra dimensions, if their partial products from the last one on all fit.
    pub fn from_dimensions(dimensions: Vec<usize>) -> (result: Option<ExtraShape>)
        ensures
            match result {
                Some(shape) => {
                    &&& shape.wf()
                    &&& shape.dimensions@ == dimensions@
                    &&& forall|q: int|
                        0 <= q <= dimensions@.len() ==> product(#[trigger] dimensions@.skip(q))
                            <= usize::MAX
                },
                None => exists|q: int|
                    0 <= q <= dimensions@.len() && product(#[trigger] dimensions@.skip(q))
                        > usize::MAX,
            },
    {
        let mut q: usize = dimensions.len();
        let mut total: usize = 1;
        assert(dimensions@.skip(q as int) =~= Seq::<usize>::empty());
        while q > 0
            invariant
                q <= dimensions@.len(),
                total == product(dimensions@.skip(q as int)),
                forall|r: int|
                    q <= r <= dimensions@.len() ==> product(#[trigger] dimensions@.skip(r))
                        <= usize::MAX,
            decreases q,
        {
            q -= 1;
            let extent: usize = dimensions[q];
            proof {
                assert(dimensions@.skip(q as int)[0] == extent);
                assert(dimensions@.skip(q as int).skip(1) =~= dimensions@.skip(q + 1));
            }
            match extent.checked_mul(total) {
                Some(value) => {
                    total = value;
                },
                None => {
                    assert(product(dimensions@.skip(q as int)) > usize::MAX);
                    return None;
                },
            }
        }
        assert(dimensions@.skip(0) =~= dimensions@);
        Some(ExtraShape { dimensions, element_count: total })
    }

    /// Whether the two shapes have the same extra dimensions.
    pub fn same(&self, other: &ExtraShape) -> (same: bool)
        ensures
            same == (self.dimensions@ == other.dimensions@),
    {
        if self.dimensions.len() != other.dimensions.len() {
            return false;
        }
        let mut i: usize = 0;
        while i < self.dimensions.len()
            invariant
                i <= self.dimensions@.len() == other.dimensions@.len(),
                forall|j: int| 0 <= j < i ==> self.dimensions@[j] == other.dimensions@[j],
            decreases self.dimensions@.len() - i,
        {
            if self.dimensions[i] != other.dimensions[i] {
                assert(self.dimensions@[i as int] != other.dimensions@[i as int]);
                return false;
            }
            i += 1;
        }
        assert(self.dimensions@ =~= other.dimensions@);
        true
    }

    /// A second shape with the same extra dimensions.
    pub fn duplicate(&self) -> (copy: ExtraShape)
        ensures
            copy.dimensions@ == self.dimensions@,
            copy.element_count == self.element_count,
    {
        let mut dimensions: Vec<usize> = Vec::new();
        let mut i: usize = 0;
        while i < self.dimensions.len()
            invariant
                i <= self.dimensions@.len(),
                dimensions@ == self.dimensions@.take(i as int),
            decreases self.dimensions@.len() - i,
        {
            dimensions.push(self.dimensions[i]);
            i += 1;
            assert(dimensions@ =~= self.dimensions@.take(i as int));
        }
        assert(self.dimensions@.take(i as int) =~= self.dimensions@);
        ExtraShape { dimensions, element_count: self.element_count }
    }
}

/// How a transition moves data between ranks.
#[derive(Clone, Copy, Debug, PartialEq, Eq, Structural)]
pub enum TransposeMethod {
    /// One collective exchange.
    AllToAllv,
    /// Single messages between pairs of ranks.
    PointToPoint,
}

impl TransposeMethod {
    /// The word that a descriptor holds for the method.
    pub open spec fn spec_descriptor_word(self) -> u64 {
        match self {
            TransposeMethod::AllToAllv => 0,
            TransposeMethod::PointToPoint => 1,
        }
    }

    /// Returns the word that a descriptor holds for the method.
    pub fn descriptor_word(self) -> (word: u64)
        ensures
            word == self.spec_descriptor_word(),
    {
        match self {
            TransposeMethod::AllToAllv => 0,
            TransposeMethod::PointToPoint => 1,
        }
    }
}

/// Transport and memory-layout policy of a plan.
#[derive(Clone, Copy, Debug, PartialEq, Eq, Structural)]
pub struct DistributedLayout {
    /// How transitions move data.
    pub transpose_method: TransposeMethod,
    /// Whether every stage has its axis fastest in memory.
    pub permute_dims: bool,
}

impl DistributedLayout {
    /// The policy of a plan that names only its transition method.
    pub open spec fn spec_with_method(method: TransposeMethod) -> DistributedLayout {
        DistributedLayout { transpose_method: method, permute_dims: true }
    }

    /// Returns the policy of a plan that names only its transition method.
    pub fn with_method(method: TransposeMethod) -> (layout: DistributedLayout)
        ensures
            layout == DistributedLayout::spec_with_method(method),
    {
        DistributedLayout { transpose_method: method, permute_dims: true }
    }
}

impl Default for DistributedLayout {
    fn default() -> (layout: DistributedLayout)
        ensures
            layout == DistributedLayout::spec_with_method(TransposeMethod::AllToAllv),
    {
        DistributedLayout { transpose_method: TransposeMethod::AllToAllv, permute_dims: true }
    }
}

/// Which way an execution goes.
#[derive(Clone, Copy, Debug, PartialEq, Eq, Structural)]
pub enum Direction {
    /// The unnormalized transform.
    Forward,
    /// The normalized way back.
    Inverse,
    /// The way back without normalization.
    Backward,
}

/// The sign of one axis of a complex transform.
#[derive(Clone, Copy, Debug, PartialEq, Eq, Structural)]
pub enum FourierDirection {
    /// The negative exponent.
    Forward,
    /// The positive exponent.
    Backward,
}

/// The sign of every axis.
#[derive(Clone, Copy, Debug)]
pub struct FourierDirections<const N: usize>(pub [FourierDirection; N]);

impl<const N: usize> FourierDirections<N> {
    /// The sign of `axis`, if there is such an axis.
    pub open spec fn spec_get(&self, axis: int) -> Option<FourierDirection> {
        if 0 <= axis < N {
            Some(self.0@[axis])
        } else {
            None
        }
    }

    /// Returns the sign of `axis`, if there is such an axis.
    pub fn get(&self, axis: usize) -> (direction: Option<FourierDirection>)
        ensures
            direction == self.spec_get(axis as int),
    {
        if axis < N {
            Some(self.0[axis])
        } else {
            None
        }
    }
}

impl<const N: usize> Default for FourierDirections<N> {
    fn default() -> (directions: FourierDirections<N>)
        ensures
            forall|axis: int|
                0 <= axis < N ==> #[trigger] directions.0@[axis] == FourierDirection::Forward,
    {
        FourierDirections(vstd::array::array_fill_for_copy_types(FourierDirection::Forward))
    }
}

/// A set of axes.
#[derive(Clone, Copy, Debug)]
pub struct AxisSelection<const N: usize> {
    /// Whether each axis is selected.
    pub mask: [bool; N],
}

impl<const N: usize> AxisSelection<N> {
    /// `axis` is selected.
    pub open spec fn spec_contains(&self, axis: int) -> bool {
        0 <= axis < N && self.mask@[axis]
    }

    /// Every axis is selected.
    pub open spec fn spec_is_all(&self) -> bool {
        forall|axis: int| 0 <= axis < N ==> #[trigger] self.mask@[axis]
    }

    /// Selects every axis.
    pub fn all() -> (selection: AxisSelection<N>)
        ensures
            selection.spec_is_all(),
    {
        AxisSelection { mask: vstd::array::array_fill_for_copy_types(true) }
    }

    /// Whether `axis` is selected.
    pub fn contains(&self, axis: usize) -> (selected: bool)
        ensures
            selected == self.spec_contains(axis as int),
    {
        axis < N && self.mask[axis]
    }

    /// The largest selected axis.
    pub fn largest(&self) -> (axis: Option<usize>)
        ensures
            match axis {
                Some(found) => self.spec_contains(found as int) && forall|other: int|
                    found < other < N ==> !#[trigger] self.mask@[other],
                None => forall|other: int| 0 <= other < N ==> !#[trigger] self.mask@[other],
            },
    {
        let mut axis: usize = N;
        while axis > 0
            invariant
                axis <= N,
                forall|other: int| axis <= other < N ==> !#[trigger] self.mask@[other],
            decreases axis,
        {
            axis -= 1;
            if self.mask[axis] {
                return Some(axis);
            }
        }
        None
    }
}

/// Where the data of a complex or real-to-real in-place array stands.
#[derive(Clone, Copy, Debug, PartialEq, Eq, Structural)]
pub enum C2cState {
    /// Before a forward transform.
    Input,
    /// After a forward transform.
    Output,
    /// An operation started and did not end.
    Poisoned,
}

/// Where the data of a real-to-real in-place array stands.
pub type R2rState = C2cState;

/// Where the data of a real-to-complex in-place array stands.
#[derive(Clone, Copy, Debug, PartialEq, Eq, Structural)]
pub enum R2cState {
    /// Real values, before a forward transform.
    RealInput,
    /// Complex values, after a forward transform.
    ComplexOutput,
    /// An operation started and did not end.
    Poisoned,
}

} // verus!
