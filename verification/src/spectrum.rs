//! The check that the endpoint planes of a half spectrum are real enough.
//!
//! Which values count, in which order, and what becomes of the verdicts is decided here; how two
//! numbers are compared is left to a [`Gauge`].

use vstd::prelude::*;

use crate::array::ManyPencilArray;
use crate::boundary::plane_count;
use crate::boundary::spec_plane_count;
use crate::boundary::ReducedAxis;
use crate::endpoints::lemma_block_has_lines;
use crate::endpoints::reduced_axis;
use crate::error::FftError;
use crate::error::MixedError;
use crate::error::R2cError;
use crate::layout::memory_stride;
use crate::layout::strided_line_count;
use crate::layout::Pencil;
use crate::lines::lemma_position_bound;
use crate::lines::position;
use crate::local::LocalR2cPlan;
use crate::mixed_r2c::MixedR2cCore;
use crate::r2c::TransformPlanCore;
use crate::registry::is_empty_room;
use crate::registry::room_for;
use crate::registry::Stage;
use crate::scalar::Complex;
use crate::scalar::FftReal;
use crate::world::settle;
use crate::world::settled;

verus! {

/// How endpoint values are measured: the largest of each plane first, over all processes, then
/// the sums relative to it, over all processes, then whether a plane is real enough.
#[derive(Debug)]
pub struct Gauge<X, U, Y, W, J> {
    /// Adds a value of a plane to the largest ones.
    pub peak: X,
    /// The largest ones over all processes.
    pub all_peaks: U,
    /// Adds a value of a plane to the sums, relative to the largest ones of all processes.
    pub share: Y,
    /// The sums over all processes.
    pub all_shares: W,
    /// Tells from the own largest ones, those of all processes and their sums whether the planes
    /// are real enough.
    pub judge: J,
}

/// Everything can be measured.
pub open spec fn gauge_answers<S, V, X: Fn(&S, S, usize, V) -> S, U: Fn(S) -> S, Y: Fn(&S, S, usize, V) -> S, W: Fn(S) -> S, J: Fn(S, S, S) -> bool>(
    gauge: Gauge<X, U, Y, W, J>,
) -> bool {
    &&& forall|context: &S, stats: S, plane: usize, value: V| #[trigger]
        gauge.peak.requires((context, stats, plane, value))
    &&& forall|stats: S| #[trigger] gauge.all_peaks.requires((stats,))
    &&& forall|context: &S, stats: S, plane: usize, value: V| #[trigger]
        gauge.share.requires((context, stats, plane, value))
    &&& forall|stats: S| #[trigger] gauge.all_shares.requires((stats,))
    &&& forall|own: S, peaks: S, shares: S| #[trigger] gauge.judge.requires((own, peaks, shares))
}

/// One value was added to the statistics.
pub open spec fn absorbed<S, V, F: Fn(&S, S, usize, V) -> S>(
    measure: F,
    context: S,
    before: S,
    item: (usize, V),
    after: S,
) -> bool {
    measure.ensures((&context, before, item.0, item.1), after)
}

/// Values were added to the statistics one after the other.
pub open spec fn folded<S, V, F: Fn(&S, S, usize, V) -> S>(
    measure: F,
    context: S,
    start: S,
    items: Seq<(usize, V)>,
    end: S,
) -> bool
    decreases items.len(),
{
    if items.len() == 0 {
        end == start
    } else {
        exists|between: S| #[trigger]
            absorbed(measure, context, between, items.last(), end) && folded(
                measure,
                context,
                start,
                items.drop_last(),
                between,
            )
    }
}

proof fn lemma_folded_push<S, V, F: Fn(&S, S, usize, V) -> S>(
    measure: F,
    context: S,
    start: S,
    items: Seq<(usize, V)>,
    between: S,
    item: (usize, V),
    end: S,
)
    requires
        folded(measure, context, start, items, between),
        absorbed(measure, context, between, item, end),
    ensures
        folded(measure, context, start, items.push(item), end),
{
    assert(items.push(item).drop_last() =~= items);
    assert(items.push(item).last() == item);
}

/// The endpoint values of the first `count` elements of a block, in memory order, each with its
/// plane.
pub open spec fn plane_values<V>(axis: ReducedAxis, block: Seq<V>, count: int) -> Seq<(usize, V)>
    decreases count,
{
    if count <= 0 {
        Seq::empty()
    } else {
        let earlier = plane_values(axis, block, count - 1);
        match axis.plane(count - 1) {
            Some(plane) => earlier.push((plane, block[count - 1])),
            None => earlier,
        }
    }
}

/// Measures the endpoint values of a block in memory order.
fn fold_block<S: Copy, V: Copy, F: Fn(&S, S, usize, V) -> S>(
    measure: &F,
    context: &S,
    start: S,
    axis: &ReducedAxis,
    data: &[V],
    from: usize,
    len: usize,
) -> (end: S)
    requires
        forall|given: &S, stats: S, plane: usize, value: V| #[trigger]
            measure.requires((given, stats, plane, value)),
        len > 0 ==> axis.wf(),
        from + len <= data@.len(),
    ensures
        folded(
            *measure,
            *context,
            start,
            plane_values(*axis, data@.subrange(from as int, from + len), len as int),
            end,
        ),
{
    let ghost block = data@.subrange(from as int, from + len);
    let available: usize = data.len();
    let mut stats: S = start;
    let mut offset: usize = 0;
    while offset < len
        invariant
            offset <= len,
            len > 0 ==> axis.wf(),
            from + len <= data@.len() == available,
            block == data@.subrange(from as int, from + len),
            forall|given: &S, stats: S, plane: usize, value: V| #[trigger]
                measure.requires((given, stats, plane, value)),
            folded(*measure, *context, start, plane_values(*axis, block, offset as int), stats),
        decreases len - offset,
    {
        let ghost between = stats;
        match axis.constrained_plane(offset) {
            Some(plane) => {
                let value: V = data[from + offset];
                stats = measure(context, stats, plane, value);
                proof {
                    assert(absorbed(*measure, *context, between, (plane, value), stats));
                    lemma_folded_push(
                        *measure,
                        *context,
                        start,
                        plane_values(*axis, block, offset as int),
                        between,
                        (plane, value),
                        stats,
                    );
                    assert(block[offset as int] == value);
                }
            },
            None => {},
        }
        offset += 1;
    }
    stats
}

/// One batch, whose largest values on this process are known, was judged.
pub open spec fn peaks_judged<S, V, X: Fn(&S, S, usize, V) -> S, U: Fn(S) -> S, Y: Fn(&S, S, usize, V) -> S, W: Fn(S) -> S, J: Fn(S, S, S) -> bool>(
    gauge: Gauge<X, U, Y, W, J>,
    zero: S,
    own: S,
    items: Seq<(usize, V)>,
    fine: bool,
) -> bool {
    exists|peaks: S, parts: S, shares: S|
        {
            &&& #[trigger] gauge.all_peaks.ensures((own,), peaks)
            &&& folded(gauge.share, peaks, zero, items, parts)
            &&& #[trigger] gauge.all_shares.ensures((parts,), shares)
            &&& gauge.judge.ensures((own, peaks, shares), fine)
        }
}

/// One batch was measured and judged.
pub open spec fn batch_judged<S, V, X: Fn(&S, S, usize, V) -> S, U: Fn(S) -> S, Y: Fn(&S, S, usize, V) -> S, W: Fn(S) -> S, J: Fn(S, S, S) -> bool>(
    gauge: Gauge<X, U, Y, W, J>,
    zero: S,
    items: Seq<(usize, V)>,
    fine: bool,
) -> bool {
    exists|own: S|
        {
            &&& folded(gauge.peak, zero, zero, items, own)
            &&& #[trigger] peaks_judged::<S, V, X, U, Y, W, J>(gauge, zero, own, items, fine)
        }
}

/// The batches were judged one by one: all are fine, or not.
pub open spec fn batches_judged<S, V, X: Fn(&S, S, usize, V) -> S, U: Fn(S) -> S, Y: Fn(&S, S, usize, V) -> S, W: Fn(S) -> S, J: Fn(S, S, S) -> bool>(
    gauge: Gauge<X, U, Y, W, J>,
    zero: S,
    items: spec_fn(int) -> Seq<(usize, V)>,
    batches: int,
    fine: bool,
) -> bool {
    exists|verdicts: Seq<bool>|
        {
            &&& verdicts.len() == batches
            &&& forall|i: int|
                0 <= i < batches ==> batch_judged::<S, V, X, U, Y, W, J>(
                    gauge,
                    zero,
                    items(i),
                    #[trigger] verdicts[i],
                )
            &&& fine == all_true(verdicts)
        }
}

/// Every verdict is favourable.
pub open spec fn all_true(verdicts: Seq<bool>) -> bool {
    forall|i: int| 0 <= i < verdicts.len() ==> #[trigger] verdicts[i]
}

proof fn lemma_all_true_push(verdicts: Seq<bool>, verdict: bool)
    ensures
        all_true(verdicts.push(verdict)) == (all_true(verdicts) && verdict),
{
    let longer = verdicts.push(verdict);
    if all_true(longer) {
        assert(longer[verdicts.len() as int]);
        assert forall|i: int| 0 <= i < verdicts.len() implies #[trigger] verdicts[i] by {
            assert(longer[i]);
        }
    }
}

/// The endpoint values of batch `batch` of a real-to-complex plan.
pub open spec fn batch_values<V>(axis: ReducedAxis, data: Seq<V>, local_len: int) -> spec_fn(int) -> Seq<
    (usize, V),
> {
    |batch: int|
        plane_values(
            axis,
            data.subrange(batch * local_len, batch * local_len + local_len),
            local_len,
        )
}

/// Judges the endpoint planes of each local block.
fn judge_blocks<S: Copy, V: Copy, X: Fn(&S, S, usize, V) -> S, U: Fn(S) -> S, Y: Fn(&S, S, usize, V) -> S, W: Fn(S) -> S, J: Fn(S, S, S) -> bool>(
    gauge: &Gauge<X, U, Y, W, J>,
    zero: S,
    axis: &ReducedAxis,
    data: &[V],
    local_len: usize,
    batches: usize,
) -> (fine: bool)
    requires
        gauge_answers::<S, V, X, U, Y, W, J>(*gauge),
        local_len > 0 ==> axis.wf(),
        batches * local_len <= data@.len(),
    ensures
        batches_judged::<S, V, X, U, Y, W, J>(
            *gauge,
            zero,
            batch_values(*axis, data@, local_len as int),
            batches as int,
            fine,
        ),
{
    let ghost items = batch_values(*axis, data@, local_len as int);
    let available: usize = data.len();
    let ghost mut verdicts: Seq<bool> = Seq::empty();
    let mut fine: bool = true;
    let mut batch: usize = 0;
    while batch < batches
        invariant
            gauge_answers::<S, V, X, U, Y, W, J>(*gauge),
            local_len > 0 ==> axis.wf(),
            batch <= batches,
            batches * local_len <= data@.len() == available,
            items == batch_values(*axis, data@, local_len as int),
            verdicts.len() == batch,
            forall|i: int|
                0 <= i < batch ==> batch_judged::<S, V, X, U, Y, W, J>(
                    *gauge,
                    zero,
                    items(i),
                    #[trigger] verdicts[i],
                ),
            fine == all_true(verdicts),
        decreases batches - batch,
    {
        proof {
            assert(batch * local_len + local_len <= batches * local_len && 0 <= batch * local_len)
                by (nonlinear_arith)
                requires
                    batch + 1 <= batches,
                    local_len >= 0,
                    batch >= 0,
            ;
        }
        let from: usize = batch * local_len;
        let own: S = fold_block(&gauge.peak, &zero, zero, axis, data, from, local_len);
        let question = &gauge.all_peaks;
        let peaks: S = question(own);
        assert(gauge.all_peaks.ensures((own,), peaks));
        let parts: S = fold_block(&gauge.share, &peaks, zero, axis, data, from, local_len);
        let question = &gauge.all_shares;
        let shares: S = question(parts);
        assert(gauge.all_shares.ensures((parts,), shares));
        let question = &gauge.judge;
        let verdict: bool = question(own, peaks, shares);
        proof {
            assert(peaks_judged::<S, V, X, U, Y, W, J>(
                *gauge,
                zero,
                own,
                items(batch as int),
                verdict,
            ));
            assert(batch_judged::<S, V, X, U, Y, W, J>(
                *gauge,
                zero,
                items(batch as int),
                verdict,
            ));
            let earlier = verdicts;
            verdicts = verdicts.push(verdict);
            assert forall|i: int| 0 <= i < batch + 1 implies batch_judged::<S, V, X, U, Y, W, J>(
                *gauge,
                zero,
                items(i),
                #[trigger] verdicts[i],
            ) by {
                if i < batch {
                    assert(verdicts[i] == earlier[i]);
                }
            }
            lemma_all_true_push(earlier, verdict);
        }
        fine = fine && verdict;
        batch += 1;
    }
    fine
}

/// What the check of the endpoint planes comes to once all processes have told their verdicts.
pub open spec fn spectrum_accepted<E, A: Fn(bool) -> bool>(
    agree: A,
    fine: bool,
    outcome: Result<(), E>,
    refusal: E,
) -> bool {
    exists|all_fine: bool|
        {
            &&& #[trigger] agree.ensures((fine,), all_fine)
            &&& outcome == if all_fine {
                Ok::<(), E>(())
            } else {
                Err(refusal)
            }
        }
}

/// What the check of the endpoint planes of a real-to-complex plan comes to.
pub open spec fn half_spectrum_checked<R: FftReal, S: Copy, A: Fn(bool) -> bool, X: Fn(&S, S, usize, Complex<R>) -> S, U: Fn(S) -> S, Y: Fn(&S, S, usize, Complex<R>) -> S, W: Fn(S) -> S, J: Fn(S, S, S) -> bool, const N: usize, const M: usize>(
    core: TransformPlanCore<N, M>,
    agree: A,
    gauge: Gauge<X, U, Y, W, J>,
    zero: S,
    start: usize,
    complexes: ManyPencilArray<Complex<R>, N, M>,
    outcome: Result<(), R2cError>,
) -> bool {
    match complexes.spec_active_pencil() {
        Err(error) => outcome == Err::<(), R2cError>(R2cError::Fft(FftError::Array(error))),
        Ok(pencil) => {
            let axis = core.stages@[core.boundary as int].axis as int;
            if pencil.stride_along(axis) is None {
                outcome == Err::<(), R2cError>(R2cError::Fft(FftError::PreparationFailed))
            } else {
                exists|fine: bool|
                    {
                        &&& #[trigger] batches_judged::<S, Complex<R>, X, U, Y, W, J>(
                            gauge,
                            zero,
                            batch_values(
                                reduced_axis(pencil, axis, start, core.plan()),
                                complexes.storage@.subrange(0, complexes.active_len()),
                                pencil.local_len as int,
                            ),
                            complexes.extra_shape.element_count as int,
                            fine,
                        )
                        &&& spectrum_accepted(
                            agree,
                            fine,
                            outcome,
                            R2cError::InvalidSpectrum,
                        )
                    }
            }
        },
    }
}

/// Checks that the endpoint planes of a real-to-complex plan are real enough, in values whose
/// block starts at frequency `start`.
pub fn validate_boundary<R: FftReal, S: Copy, A: Fn(bool) -> bool, X: Fn(&S, S, usize, Complex<R>) -> S, U: Fn(S) -> S, Y: Fn(&S, S, usize, Complex<R>) -> S, W: Fn(S) -> S, J: Fn(S, S, S) -> bool, const N: usize, const M: usize>(
    core: &TransformPlanCore<N, M>,
    agree: &A,
    gauge: &Gauge<X, U, Y, W, J>,
    zero: S,
    start: usize,
    complexes: &ManyPencilArray<Complex<R>, N, M>,
) -> (outcome: Result<(), R2cError>)
    requires
        core.wf(),
        forall|valid: bool| #[trigger] agree.requires((valid,)),
        gauge_answers::<S, Complex<R>, X, U, Y, W, J>(*gauge),
        complexes.wf(),
        complexes.active matches Some(index) ==> {
            let pencil = complexes.pencils@[index as int];
            &&& pencil.wf()
            &&& core.stages@[core.boundary as int].axis < N
            &&& start + pencil.local_shape@[core.stages@[core.boundary as int].axis as int]
                <= usize::MAX
        },
    ensures
        half_spectrum_checked::<R, S, A, X, U, Y, W, J, N, M>(
            *core,
            *agree,
            *gauge,
            zero,
            start,
            *complexes,
            outcome,
        ),
{
    let pencil: Pencil<N, M> = match complexes.active_pencil() {
        Ok(pencil) => pencil,
        Err(error) => {
            return Err(R2cError::Fft(FftError::Array(error)));
        },
    };
    let stage: Stage<N, M> = core.stages[core.boundary];
    let stride: usize = match memory_stride(&pencil, stage.axis) {
        Ok(stride) => stride,
        Err(_) => {
            return Err(R2cError::Fft(FftError::PreparationFailed));
        },
    };
    let plan: LocalR2cPlan = core.boundary_plan();
    let axis = ReducedAxis {
        stride,
        local_axis_len: pencil.local_shape[stage.axis],
        global_axis_start: start,
        real_len: plan.real_len,
        complex_len: plan.complex_len,
    };
    let batches: usize = complexes.extra_shape.element_count;
    proof {
        complexes.lemma_active_fits();
        if pencil.local_len > 0 {
            lemma_block_has_lines(pencil, stage.axis as int);
        }
        assert(batches * pencil.local_len == complexes.active_len()) by (nonlinear_arith)
            requires
                complexes.active_len() == pencil.local_len * batches,
        ;
    }
    match complexes.active_view() {
        Err(error) => Err(R2cError::Fft(FftError::Array(error))),
        Ok(view) => {
            let fine: bool = judge_blocks(gauge, zero, &axis, view, pencil.local_len, batches);
            let all_fine: bool = agree(fine);
            let outcome: Result<(), R2cError> = if all_fine {
                Ok(())
            } else {
                Err(R2cError::InvalidSpectrum)
            };
            proof {
                assert(axis == reduced_axis(pencil, stage.axis as int, start, core.plan()));
                assert(agree.ensures((fine,), all_fine));
                assert(spectrum_accepted(*agree, fine, outcome, R2cError::InvalidSpectrum));
            }
            outcome
        },
    }
}

/// How the endpoint planes of a mixed plan lie in a block.
#[derive(Clone, Copy, Debug)]
pub struct PlaneGrid {
    /// Blocks of interleaved lines.
    pub groups: usize,
    /// Distance between neighbours of a line.
    pub stride: usize,
    /// Complex values of a line.
    pub complex_len: usize,
    /// Endpoint planes.
    pub planes: usize,
}

impl PlaneGrid {
    /// Where endpoint value `i` lies in a block, and its plane: group by group, lane by lane, plane
    /// by plane.
    pub open spec fn place(self, i: int) -> (usize, int) {
        let plane = i % self.planes as int;
        let lane = (i / self.planes as int) % self.stride as int;
        let group = i / self.planes as int / self.stride as int;
        (
            plane as usize,
            position(
                group,
                lane,
                if plane == 0 {
                    0
                } else {
                    self.complex_len - 1
                },
                self.complex_len as int,
                self.stride as int,
            ),
        )
    }

    /// The endpoint values of a block, each with its plane.
    pub open spec fn values<V>(self, block: Seq<V>) -> Seq<(usize, V)> {
        Seq::new(
            (self.groups * self.stride * self.planes) as nat,
            |i: int| (self.place(i).0, block[self.place(i).1]),
        )
    }

    /// The planes lie within a block of `len` elements.
    pub open spec fn fits(self, len: int) -> bool {
        &&& self.groups * self.complex_len * self.stride == len
        &&& self.stride > 0
        &&& 1 <= self.planes <= 2
        &&& self.planes <= self.complex_len
    }
}

/// Measures the endpoint values of a block line by line.
fn fold_lines<S: Copy, V: Copy, F: Fn(&S, S, usize, V) -> S>(
    measure: &F,
    context: &S,
    start: S,
    grid: &PlaneGrid,
    data: &[V],
    from: usize,
    len: usize,
) -> (end: S)
    requires
        forall|given: &S, stats: S, plane: usize, value: V| #[trigger]
            measure.requires((given, stats, plane, value)),
        grid.fits(len as int),
        from + len <= data@.len(),
    ensures
        folded(
            *measure,
            *context,
            start,
            grid.values(data@.subrange(from as int, from + len)),
            end,
        ),
{
    let ghost block = data@.subrange(from as int, from + len);
    let ghost items = grid.values(block);
    let available: usize = data.len();
    proof {
        assert(grid.groups * grid.stride * grid.planes <= len && 0 <= grid.groups * grid.stride
            <= grid.groups * grid.stride * grid.planes) by (nonlinear_arith)
            requires
                grid.groups * grid.complex_len * grid.stride == len,
                1 <= grid.planes <= grid.complex_len,
                grid.groups >= 0,
                grid.stride >= 0,
        ;
        assert(items.take(0) =~= Seq::<(usize, V)>::empty());
    }
    let total: usize = grid.groups * grid.stride * grid.planes;
    let mut stats: S = start;
    let mut index: usize = 0;
    while index < total
        invariant
            index <= total,
            total == grid.groups * grid.stride * grid.planes,
            grid.fits(len as int),
            from + len <= data@.len() == available,
            block == data@.subrange(from as int, from + len),
            items == grid.values(block),
            forall|given: &S, stats: S, plane: usize, value: V| #[trigger]
                measure.requires((given, stats, plane, value)),
            folded(*measure, *context, start, items.take(index as int), stats),
        decreases total - index,
    {
        let plane: usize = index % grid.planes;
        let row: usize = index / grid.planes;
        let lane: usize = row % grid.stride;
        let group: usize = row / grid.stride;
        let frequency: usize = if plane == 0 {
            0
        } else {
            grid.complex_len - 1
        };
        proof {
            assert(row < grid.groups * grid.stride) by (nonlinear_arith)
                requires
                    row == index as int / grid.planes as int,
                    index < grid.groups * grid.stride * grid.planes,
                    grid.planes > 0,
            ;
            assert(group < grid.groups) by (nonlinear_arith)
                requires
                    group == row as int / grid.stride as int,
                    row < grid.groups * grid.stride,
                    grid.stride > 0,
            ;
            lemma_position_bound(
                group as int,
                lane as int,
                frequency as int,
                grid.groups as int,
                grid.complex_len as int,
                grid.stride as int,
            );
        }
        let place: usize = (group * grid.complex_len + frequency) * grid.stride + lane;
        let value: V = data[from + place];
        let ghost between = stats;
        stats = measure(context, stats, plane, value);
        proof {
            assert(block[place as int] == value);
            assert(items[index as int] == (plane, value));
            assert(absorbed(*measure, *context, between, (plane, value), stats));
            lemma_folded_push(
                *measure,
                *context,
                start,
                items.take(index as int),
                between,
                (plane, value),
                stats,
            );
            assert(items.take(index + 1) =~= items.take(index as int).push((plane, value)));
        }
        index += 1;
    }
    assert(items.take(total as int) =~= items);
    stats
}

/// The endpoint values of each batch of a mixed plan.
pub open spec fn grid_values<V>(grid: PlaneGrid, data: Seq<V>, local_len: int) -> spec_fn(int) -> Seq<
    (usize, V),
> {
    |batch: int| grid.values(data.subrange(batch * local_len, batch * local_len + local_len))
}

/// The planes of a mixed plan in a layout.
pub open spec fn plane_grid<const N: usize, const M: usize>(
    pencil: Pencil<N, M>,
    axis: int,
    plan: LocalR2cPlan,
) -> PlaneGrid {
    let stride = pencil.stride_along(axis)->0;
    PlaneGrid {
        groups: (pencil.local_len as int / (plan.complex_len * stride)) as usize,
        stride,
        complex_len: plan.complex_len,
        planes: spec_plane_count(plan.real_len as int) as usize,
    }
}

/// Boundary lines fill whole blocks of a layout.
pub open spec fn lines_fill<const N: usize, const M: usize>(
    pencil: Pencil<N, M>,
    axis: int,
    plan: LocalR2cPlan,
) -> bool {
    pencil.stride_along(axis) matches Some(stride) && 0 < plan.complex_len * stride <= usize::MAX
        && pencil.local_len as int % (plan.complex_len * stride) == 0
}

/// What measuring the largest values of each batch on this process comes to, where room for them was
/// granted or not.
pub open spec fn peaks_given<S, V, X: Fn(&S, S, usize, V) -> S, const N: usize, const M: usize>(
    core: MixedR2cCore<N, M>,
    peak: X,
    zero: S,
    policy: Result<(), FftError>,
    granted: bool,
    input: Result<(Pencil<N, M>, &[V]), MixedError>,
    outcome: Result<Vec<S>, MixedError>,
) -> bool {
    let axis = core.stages@[core.boundary as int].axis as int;
    let batches = core.extra_shape.element_count;
    match input {
        Err(error) => outcome == Err::<Vec<S>, MixedError>(error),
        Ok((pencil, data)) => if !lines_fill(pencil, axis, core.plan()) {
            outcome == Err::<Vec<S>, MixedError>(MixedError::Fft(FftError::PreparationFailed))
        } else {
            match policy {
                Err(fault) => outcome == Err::<Vec<S>, MixedError>(MixedError::Fft(fault)),
                Ok(_) => if !granted {
                    outcome == Err::<Vec<S>, MixedError>(
                        MixedError::Fft(FftError::AllocationFailed { required: batches }),
                    )
                } else if batches * pencil.local_len > data@.len() {
                    outcome == Err::<Vec<S>, MixedError>(
                        MixedError::Fft(FftError::PreparationFailed),
                    )
                } else {
                    &&& outcome is Ok
                    &&& outcome->Ok_0@.len() == batches
                    &&& forall|i: int|
                        0 <= i < batches ==> folded(
                            peak,
                            zero,
                            zero,
                            grid_values(
                                plane_grid(pencil, axis, core.plan()),
                                data@,
                                pencil.local_len as int,
                            )(i),
                            #[trigger] outcome->Ok_0@[i],
                        )
                },
            }
        },
    }
}

/// Measures the largest values of each batch on this process, in `room`.
pub fn measure_peaks_in<S: Copy, V: Copy, X: Fn(&S, S, usize, V) -> S, const N: usize, const M: usize>(
    room: Option<Vec<S>>,
    core: &MixedR2cCore<N, M>,
    peak: &X,
    zero: S,
    policy: Result<(), FftError>,
    input: Result<(Pencil<N, M>, &[V]), MixedError>,
) -> (outcome: Result<Vec<S>, MixedError>)
    requires
        is_empty_room(room),
        core.wf(),
        input matches Ok((pencil, _)) ==> pencil.wf(),
        forall|given: &S, stats: S, plane: usize, value: V| #[trigger]
            peak.requires((given, stats, plane, value)),
    ensures
        peaks_given(*core, *peak, zero, policy, room is Some, input, outcome),
        outcome is Ok ==> input is Ok,
{
    let (pencil, data): (Pencil<N, M>, &[V]) = match input {
        Ok(given) => given,
        Err(error) => {
            return Err(error);
        },
    };
    let axis: usize = core.stages[core.boundary].axis;
    let plan: LocalR2cPlan = core.boundary_plan();
    let grid: PlaneGrid = match find_grid(&pencil, axis, &plan) {
        Ok(grid) => grid,
        Err(fault) => {
            return Err(MixedError::Fft(fault));
        },
    };
    match policy {
        Ok(_) => {},
        Err(fault) => {
            return Err(MixedError::Fft(fault));
        },
    }
    let batches: usize = core.extra_shape.element_count;
    let mut peaks: Vec<S> = match room {
        Some(peaks) => peaks,
        None => {
            return Err(MixedError::Fft(FftError::AllocationFailed { required: batches }));
        },
    };
    let available: usize = data.len();
    let needed: usize = match batches.checked_mul(pencil.local_len) {
        Some(needed) => needed,
        None => {
            return Err(MixedError::Fft(FftError::PreparationFailed));
        },
    };
    if needed > available {
        return Err(MixedError::Fft(FftError::PreparationFailed));
    }
    let ghost items = grid_values(grid, data@, pencil.local_len as int);
    while peaks.len() < batches
        invariant
            grid.fits(pencil.local_len as int),
            batches * pencil.local_len <= data@.len() == available,
            items == grid_values(grid, data@, pencil.local_len as int),
            peaks@.len() <= batches,
            forall|given: &S, stats: S, plane: usize, value: V| #[trigger]
                peak.requires((given, stats, plane, value)),
            forall|i: int|
                0 <= i < peaks@.len() ==> folded(*peak, zero, zero, items(i), #[trigger] peaks@[i]),
        decreases batches - peaks@.len(),
    {
        let batch: usize = peaks.len();
        proof {
            assert(batch * pencil.local_len + pencil.local_len <= batches * pencil.local_len && 0
                <= batch * pencil.local_len) by (nonlinear_arith)
                requires
                    batch + 1 <= batches,
                    pencil.local_len >= 0,
                    batch >= 0,
            ;
        }
        let own: S = fold_lines(
            peak,
            &zero,
            zero,
            &grid,
            data,
            batch * pencil.local_len,
            pencil.local_len,
        );
        assert(folded(*peak, zero, zero, items(batch as int), own));
        peaks.push(own);
    }
    Ok(peaks)
}

fn find_grid<const N: usize, const M: usize>(
    pencil: &Pencil<N, M>,
    axis: usize,
    plan: &LocalR2cPlan,
) -> (result: Result<PlaneGrid, FftError>)
    requires
        pencil.wf(),
        plan.wf(),
    ensures
        match result {
            Ok(grid) => {
                &&& lines_fill(*pencil, axis as int, *plan)
                &&& grid == plane_grid(*pencil, axis as int, *plan)
                &&& grid.fits(pencil.local_len as int)
            },
            Err(error) => error == FftError::PreparationFailed && !lines_fill(
                *pencil,
                axis as int,
                *plan,
            ),
        },
{
    let stride: usize = match memory_stride(pencil, axis) {
        Ok(stride) => stride,
        Err(_) => {
            return Err(FftError::PreparationFailed);
        },
    };
    match strided_line_count(pencil.local_len, plan.complex_len, stride) {
        Ok(groups) => {
            let planes: usize = plane_count(plan.real_len);
            proof {
                assert(stride > 0) by (nonlinear_arith)
                    requires
                        0 < plan.complex_len * stride,
                        stride >= 0,
                ;
            }
            Ok(PlaneGrid { groups, stride, complex_len: plan.complex_len, planes })
        },
        Err(_) => Err(FftError::PreparationFailed),
    }
}

/// The batches of a mixed plan were judged one by one: all are fine, or not.
pub open spec fn all_peaks_judged<S, V, X: Fn(&S, S, usize, V) -> S, U: Fn(S) -> S, Y: Fn(&S, S, usize, V) -> S, W: Fn(S) -> S, J: Fn(S, S, S) -> bool>(
    gauge: Gauge<X, U, Y, W, J>,
    zero: S,
    own: Seq<S>,
    items: spec_fn(int) -> Seq<(usize, V)>,
    fine: bool,
) -> bool {
    exists|verdicts: Seq<bool>|
        {
            &&& verdicts.len() == own.len()
            &&& forall|i: int|
                0 <= i < own.len() ==> peaks_judged::<S, V, X, U, Y, W, J>(
                    gauge,
                    zero,
                    own[i],
                    items(i),
                    #[trigger] verdicts[i],
                )
            &&& fine == all_true(verdicts)
        }
}

fn judge_lines<S: Copy, V: Copy, X: Fn(&S, S, usize, V) -> S, U: Fn(S) -> S, Y: Fn(&S, S, usize, V) -> S, W: Fn(S) -> S, J: Fn(S, S, S) -> bool>(
    gauge: &Gauge<X, U, Y, W, J>,
    zero: S,
    own: &Vec<S>,
    grid: &PlaneGrid,
    data: &[V],
    local_len: usize,
) -> (fine: bool)
    requires
        gauge_answers::<S, V, X, U, Y, W, J>(*gauge),
        grid.fits(local_len as int),
        own@.len() * local_len <= data@.len(),
    ensures
        all_peaks_judged::<S, V, X, U, Y, W, J>(
            *gauge,
            zero,
            own@,
            grid_values(*grid, data@, local_len as int),
            fine,
        ),
{
    let ghost items = grid_values(*grid, data@, local_len as int);
    let available: usize = data.len();
    let ghost mut verdicts: Seq<bool> = Seq::empty();
    let mut fine: bool = true;
    let mut batch: usize = 0;
    while batch < own.len()
        invariant
            gauge_answers::<S, V, X, U, Y, W, J>(*gauge),
            grid.fits(local_len as int),
            batch <= own@.len(),
            own@.len() * local_len <= data@.len() == available,
            items == grid_values(*grid, data@, local_len as int),
            verdicts.len() == batch,
            forall|i: int|
                0 <= i < batch ==> peaks_judged::<S, V, X, U, Y, W, J>(
                    *gauge,
                    zero,
                    own@[i],
                    items(i),
                    #[trigger] verdicts[i],
                ),
            fine == all_true(verdicts),
        decreases own@.len() - batch,
    {
        proof {
            let batches = own@.len() as int;
            assert(batch * local_len + local_len <= batches * local_len && 0 <= batch * local_len)
                by (nonlinear_arith)
                requires
                    batch + 1 <= batches,
                    local_len >= 0,
                    batch >= 0,
            ;
        }
        let question = &gauge.all_peaks;
        let peaks: S = question(own[batch]);
        assert(gauge.all_peaks.ensures((own@[batch as int],), peaks));
        let parts: S = fold_lines(
            &gauge.share,
            &peaks,
            zero,
            grid,
            data,
            batch * local_len,
            local_len,
        );
        let question = &gauge.all_shares;
        let shares: S = question(parts);
        assert(gauge.all_shares.ensures((parts,), shares));
        let question = &gauge.judge;
        let verdict: bool = question(own[batch], peaks, shares);
        proof {
            assert(peaks_judged::<S, V, X, U, Y, W, J>(
                *gauge,
                zero,
                own@[batch as int],
                items(batch as int),
                verdict,
            ));
            let earlier = verdicts;
            verdicts = verdicts.push(verdict);
            assert forall|i: int| 0 <= i < batch + 1 implies peaks_judged::<S, V, X, U, Y, W, J>(
                *gauge,
                zero,
                own@[i],
                items(i),
                #[trigger] verdicts[i],
            ) by {
                if i < batch {
                    assert(verdicts[i] == earlier[i]);
                }
            }
            lemma_all_true_push(earlier, verdict);
        }
        fine = fine && verdict;
        batch += 1;
    }
    fine
}

/// What the check of the endpoint planes of a mixed plan comes to: the processes agree that they
/// could measure their largest values, then judge the batches one by one.
/// `granted` tells whether there was room for the values.
pub open spec fn mixed_spectrum_checked_in<S, V, A: Fn(bool) -> bool, X: Fn(&S, S, usize, V) -> S, U: Fn(S) -> S, Y: Fn(&S, S, usize, V) -> S, W: Fn(S) -> S, J: Fn(S, S, S) -> bool, const N: usize, const M: usize>(
    core: MixedR2cCore<N, M>,
    agree: A,
    gauge: Gauge<X, U, Y, W, J>,
    zero: S,
    policy: Result<(), FftError>,
    granted: bool,
    input: Result<(Pencil<N, M>, &[V]), MixedError>,
    outcome: Result<(), MixedError>,
) -> bool {
    exists|local: Result<Vec<S>, MixedError>, settled_peaks: Result<Vec<S>, MixedError>|
        {
            &&& peaks_given(core, gauge.peak, zero, policy, granted, input, local)
            &&& #[trigger] settled(agree, local, settled_peaks)
            &&& match settled_peaks {
                Err(error) => outcome == Err::<(), MixedError>(error),
                Ok(own) => input is Ok && exists|fine: bool|
                    {
                        &&& #[trigger] all_peaks_judged::<S, V, X, U, Y, W, J>(
                            gauge,
                            zero,
                            own@,
                            grid_values(
                                plane_grid(
                                    input->Ok_0.0,
                                    core.stages@[core.boundary as int].axis as int,
                                    core.plan(),
                                ),
                                input->Ok_0.1@,
                                input->Ok_0.0.local_len as int,
                            ),
                            fine,
                        )
                        &&& spectrum_accepted(agree, fine, outcome, MixedError::InvalidSpectrum)
                    },
            }
        }
}

/// What the check of the endpoint planes of a mixed plan comes to, whether or not there was room for
/// the largest values.
pub open spec fn mixed_spectrum_checked<S, V, A: Fn(bool) -> bool, X: Fn(&S, S, usize, V) -> S, U: Fn(S) -> S, Y: Fn(&S, S, usize, V) -> S, W: Fn(S) -> S, J: Fn(S, S, S) -> bool, const N: usize, const M: usize>(
    core: MixedR2cCore<N, M>,
    agree: A,
    gauge: Gauge<X, U, Y, W, J>,
    zero: S,
    policy: Result<(), FftError>,
    input: Result<(Pencil<N, M>, &[V]), MixedError>,
    outcome: Result<(), MixedError>,
) -> bool {
    exists|granted: bool| #[trigger]
        mixed_spectrum_checked_in::<S, V, A, X, U, Y, W, J, N, M>(
            core,
            agree,
            gauge,
            zero,
            policy,
            granted,
            input,
            outcome,
        )
}

/// Checks that the endpoint planes of a mixed real-to-complex plan are real enough, with `room` for
/// the largest values. `policy` tells whether the tolerance can be computed.
pub fn validate_mixed_boundary_data_in<S: Copy, V: Copy, A: Fn(bool) -> bool, X: Fn(&S, S, usize, V) -> S, U: Fn(S) -> S, Y: Fn(&S, S, usize, V) -> S, W: Fn(S) -> S, J: Fn(S, S, S) -> bool, const N: usize, const M: usize>(
    room: Option<Vec<S>>,
    core: &MixedR2cCore<N, M>,
    agree: &A,
    gauge: &Gauge<X, U, Y, W, J>,
    zero: S,
    policy: Result<(), FftError>,
    input: Result<(Pencil<N, M>, &[V]), MixedError>,
) -> (outcome: Result<(), MixedError>)
    requires
        is_empty_room(room),
        core.wf(),
        forall|valid: bool| #[trigger] agree.requires((valid,)),
        gauge_answers::<S, V, X, U, Y, W, J>(*gauge),
        input matches Ok((pencil, _)) ==> pencil.wf(),
    ensures
        mixed_spectrum_checked_in::<S, V, A, X, U, Y, W, J, N, M>(
            *core,
            *agree,
            *gauge,
            zero,
            policy,
            room is Some,
            input,
            outcome,
        ),
{
    let local: Result<Vec<S>, MixedError> = measure_peaks_in(
        room,
        core,
        &gauge.peak,
        zero,
        policy,
        input,
    );
    let own: Vec<S> = match settle(agree, local) {
        Ok(own) => own,
        Err(error) => {
            return Err(error);
        },
    };
    let (pencil, data): (Pencil<N, M>, &[V]) = match input {
        Ok(given) => given,
        Err(error) => {
            return Err(error);
        },
    };
    let axis: usize = core.stages[core.boundary].axis;
    let plan: LocalR2cPlan = core.boundary_plan();
    let grid: PlaneGrid = match find_grid(&pencil, axis, &plan) {
        Ok(grid) => grid,
        Err(fault) => {
            return Err(MixedError::Fft(fault));
        },
    };
    let fine: bool = judge_lines(gauge, zero, &own, &grid, data, pencil.local_len);
    let all_fine: bool = agree(fine);
    let outcome: Result<(), MixedError> = if all_fine {
        Ok(())
    } else {
        Err(MixedError::InvalidSpectrum)
    };
    proof {
        assert(agree.ensures((fine,), all_fine));
        assert(spectrum_accepted(*agree, fine, outcome, MixedError::InvalidSpectrum));
    }
    outcome
}

/// Checks that the endpoint planes of a mixed real-to-complex plan are real enough. `policy` tells
/// whether the tolerance can be computed. Whether there is room for the largest values rests on the
/// machine; [`validate_mixed_boundary_data_in`] says what follows for each answer.
pub fn validate_mixed_boundary_data<S: Copy, V: Copy, A: Fn(bool) -> bool, X: Fn(&S, S, usize, V) -> S, U: Fn(S) -> S, Y: Fn(&S, S, usize, V) -> S, W: Fn(S) -> S, J: Fn(S, S, S) -> bool, const N: usize, const M: usize>(
    core: &MixedR2cCore<N, M>,
    agree: &A,
    gauge: &Gauge<X, U, Y, W, J>,
    zero: S,
    policy: Result<(), FftError>,
    input: Result<(Pencil<N, M>, &[V]), MixedError>,
) -> (outcome: Result<(), MixedError>)
    requires
        core.wf(),
        forall|valid: bool| #[trigger] agree.requires((valid,)),
        gauge_answers::<S, V, X, U, Y, W, J>(*gauge),
        input matches Ok((pencil, _)) ==> pencil.wf(),
    ensures
        mixed_spectrum_checked::<S, V, A, X, U, Y, W, J, N, M>(
            *core,
            *agree,
            *gauge,
            zero,
            policy,
            input,
            outcome,
        ),
{
    let room: Option<Vec<S>> = room_for(core.extra_shape.element_count);
    validate_mixed_boundary_data_in(room, core, agree, gauge, zero, policy, input)
}

/// What the check of the endpoint planes of a mixed plan comes to.
pub open spec fn mixed_half_spectrum_checked<R: FftReal, S: Copy, A: Fn(bool) -> bool, X: Fn(&S, S, usize, Complex<R>) -> S, U: Fn(S) -> S, Y: Fn(&S, S, usize, Complex<R>) -> S, W: Fn(S) -> S, J: Fn(S, S, S) -> bool, const N: usize, const M: usize>(
    core: MixedR2cCore<N, M>,
    agree: A,
    gauge: Gauge<X, U, Y, W, J>,
    zero: S,
    policy: Result<(), FftError>,
    complexes: ManyPencilArray<Complex<R>, N, M>,
    outcome: Result<(), MixedError>,
) -> bool {
    exists|input: Result<(Pencil<N, M>, &[Complex<R>]), MixedError>|
        {
            &&& #[trigger] mixed_spectrum_checked::<S, Complex<R>, A, X, U, Y, W, J, N, M>(
                core,
                agree,
                gauge,
                zero,
                policy,
                input,
                outcome,
            )
            &&& match complexes.spec_active_pencil() {
                Err(error) => input == Err::<(Pencil<N, M>, &[Complex<R>]), MixedError>(
                    MixedError::Fft(FftError::Array(error)),
                ),
                Ok(pencil) => input matches Ok((given, view)) && given == pencil && view@
                    == complexes.storage@.subrange(0, complexes.active_len()),
            }
        }
}

/// Checks that the endpoint planes of the active elements of a mixed plan are real enough.
pub fn validate_mixed_boundary<R: FftReal, S: Copy, A: Fn(bool) -> bool, X: Fn(&S, S, usize, Complex<R>) -> S, U: Fn(S) -> S, Y: Fn(&S, S, usize, Complex<R>) -> S, W: Fn(S) -> S, J: Fn(S, S, S) -> bool, const N: usize, const M: usize>(
    core: &MixedR2cCore<N, M>,
    agree: &A,
    gauge: &Gauge<X, U, Y, W, J>,
    zero: S,
    policy: Result<(), FftError>,
    complexes: &ManyPencilArray<Complex<R>, N, M>,
) -> (outcome: Result<(), MixedError>)
    requires
        core.wf(),
        forall|valid: bool| #[trigger] agree.requires((valid,)),
        gauge_answers::<S, Complex<R>, X, U, Y, W, J>(*gauge),
        complexes.wf(),
        complexes.active matches Some(index) ==> complexes.pencils@[index as int].wf(),
    ensures
        mixed_half_spectrum_checked::<R, S, A, X, U, Y, W, J, N, M>(
            *core,
            *agree,
            *gauge,
            zero,
            policy,
            *complexes,
            outcome,
        ),
{
    let input: Result<(Pencil<N, M>, &[Complex<R>]), MixedError> = match complexes.active_pencil() {
        Err(error) => Err(MixedError::Fft(FftError::Array(error))),
        Ok(pencil) => match complexes.active_view() {
            Err(error) => Err(MixedError::Fft(FftError::Array(error))),
            Ok(view) => Ok((pencil, view)),
        },
    };
    validate_mixed_boundary_data(core, agree, gauge, zero, policy, input)
}

} // verus!
