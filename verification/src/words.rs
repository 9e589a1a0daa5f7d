//! The words by which ranks agree that they call the same operation of the same plan.

use vstd::prelude::*;

use crate::layout::AxisSelection;
use crate::layout::Direction;
use crate::layout::DistributedLayout;
use crate::layout::ExtraShape;
use crate::layout::FourierDirection;
use crate::layout::FourierDirections;
use crate::local::lemma_descriptor_code_unique;
use crate::local::AxisR2rKind;
use crate::local::AxisTransform;
use crate::local::BackendChoice;
use crate::registry::reserve_exact;

verus! {

/// Version of the descriptors.
pub const DESCRIPTOR_SCHEMA: u64 = 1;

/// Stands for a number that no word can hold.
pub const INVALID_WORD: u64 = 0xffff_ffff_ffff_ffff;

/// Descriptor word of complex values.
pub const VALUE_KIND_C2C: u64 = 1;

/// Descriptor word of real values that become complex.
pub const VALUE_KIND_R2C: u64 = 2;

/// The plan families.
#[derive(Clone, Copy, Debug, PartialEq, Eq, Structural)]
pub enum PlanFamily {
    /// Complex.
    C2c,
    /// Real to complex.
    R2c,
    /// Cosine and sine.
    R2r,
    /// Hartley.
    Dht,
    /// Mixed complex.
    MixedC2c,
    /// Mixed real to complex.
    MixedR2c,
}

impl PlanFamily {
    /// The word of the family in a collection header.
    pub open spec fn spec_word(self) -> u64 {
        match self {
            PlanFamily::C2c => 1,
            PlanFamily::R2c => 2,
            PlanFamily::R2r => 3,
            PlanFamily::Dht => 4,
            PlanFamily::MixedC2c => 5,
            PlanFamily::MixedR2c => 6,
        }
    }

    /// Returns the word of the family in a collection header.
    pub fn word(self) -> (word: u64)
        ensures
            word == self.spec_word(),
    {
        match self {
            PlanFamily::C2c => 1,
            PlanFamily::R2c => 2,
            PlanFamily::R2r => 3,
            PlanFamily::Dht => 4,
            PlanFamily::MixedC2c => 5,
            PlanFamily::MixedR2c => 6,
        }
    }
}

/// A collective operation.
#[allow(inconsistent_fields)]
#[derive(Clone, Copy, Debug, PartialEq, Eq, Structural)]
pub enum Operation {
    /// A construction with the portable kernels.
    Plan {
        /// The plan.
        family: PlanFamily,
    },
    /// A construction with the native kernels.
    PlanNative {
        /// The plan.
        family: PlanFamily,
    },
    /// An execution.
    Run {
        /// The plan.
        family: PlanFamily,
        /// Which way it goes.
        direction: Direction,
        /// Whether it works in one buffer.
        in_place: bool,
    },
    /// An execution that is measured.
    Timed {
        /// The plan.
        family: PlanFamily,
        /// Which way it goes.
        direction: Direction,
        /// Whether it works in one buffer.
        in_place: bool,
    },
    /// An execution that overlaps kernels with communication.
    Overlap {
        /// The plan.
        family: PlanFamily,
        /// Which way it goes.
        direction: Direction,
    },
    /// An execution over a collection.
    Many {
        /// Which way it goes.
        direction: Direction,
        /// Whether it works in one buffer for each member.
        in_place: bool,
    },
}

/// Place of a direction among the words of an operation.
pub open spec fn direction_step(direction: Direction) -> int {
    match direction {
        Direction::Forward => 0,
        Direction::Inverse => 1,
        Direction::Backward => 2,
    }
}

/// First word of the three or six words of an operation, if the family has the operation.
pub open spec fn first_word(operation: Operation) -> Option<int> {
    match operation {
        Operation::Plan { family } => Some(7 * family.spec_word() - 6),
        Operation::PlanNative { family } => Some(126 + family.spec_word()),
        Operation::Run { family, .. } => Some(7 * family.spec_word() - 5),
        Operation::Timed { family, .. } => match family {
            PlanFamily::R2c => Some(79),
            PlanFamily::MixedC2c => Some(91),
            PlanFamily::MixedR2c => Some(115),
            _ => None,
        },
        Operation::Overlap { family, .. } => match family {
            PlanFamily::C2c => Some(55),
            PlanFamily::R2c => Some(73),
            PlanFamily::MixedC2c => Some(85),
            PlanFamily::MixedR2c => Some(88),
            _ => None,
        },
        Operation::Many { .. } => Some(121),
    }
}

/// Place of an operation among the words that start at its first word.
pub open spec fn word_step(operation: Operation) -> int {
    match operation {
        Operation::Plan { .. } => 0,
        Operation::PlanNative { .. } => 0,
        Operation::Run { direction, in_place, .. } => direction_step(direction) + if in_place {
            3int
        } else {
            0
        },
        Operation::Timed { direction, in_place, .. } => direction_step(direction) + if in_place {
            3int
        } else {
            0
        },
        Operation::Overlap { direction, .. } => direction_step(direction),
        Operation::Many { direction, in_place } => direction_step(direction) + if in_place {
            3int
        } else {
            0
        },
    }
}

/// The word of an operation, if the family has the operation.
pub open spec fn operation_word_of(operation: Operation) -> Option<u64> {
    match first_word(operation) {
        Some(first) => Some((first + word_step(operation)) as u64),
        None => None,
    }
}

/// The family of a family word.
spec fn family_of(word: int) -> PlanFamily {
    if word == 1 {
        PlanFamily::C2c
    } else if word == 2 {
        PlanFamily::R2c
    } else if word == 3 {
        PlanFamily::R2r
    } else if word == 4 {
        PlanFamily::Dht
    } else if word == 5 {
        PlanFamily::MixedC2c
    } else {
        PlanFamily::MixedR2c
    }
}

/// The direction of a step among three or six words.
spec fn direction_of(step: int) -> Direction {
    if step == 0 || step == 3 {
        Direction::Forward
    } else if step == 1 || step == 4 {
        Direction::Inverse
    } else {
        Direction::Backward
    }
}

/// The operation that a word stands for.
spec fn operation_of(word: int) -> Operation {
    if word <= 42 {
        let family = family_of((word - 1) / 7 + 1);
        let step = (word - 1) % 7 - 1;
        if step < 0 {
            Operation::Plan { family }
        } else {
            Operation::Run { family, direction: direction_of(step), in_place: step >= 3 }
        }
    } else if word <= 57 {
        Operation::Overlap { family: PlanFamily::C2c, direction: direction_of(word - 55) }
    } else if word <= 75 {
        Operation::Overlap { family: PlanFamily::R2c, direction: direction_of(word - 73) }
    } else if word <= 84 {
        Operation::Timed {
            family: PlanFamily::R2c,
            direction: direction_of(word - 79),
            in_place: word >= 82,
        }
    } else if word <= 87 {
        Operation::Overlap { family: PlanFamily::MixedC2c, direction: direction_of(word - 85) }
    } else if word <= 90 {
        Operation::Overlap { family: PlanFamily::MixedR2c, direction: direction_of(word - 88) }
    } else if word <= 96 {
        Operation::Timed {
            family: PlanFamily::MixedC2c,
            direction: direction_of(word - 91),
            in_place: word >= 94,
        }
    } else if word <= 120 {
        Operation::Timed {
            family: PlanFamily::MixedR2c,
            direction: direction_of(word - 115),
            in_place: word >= 118,
        }
    } else if word <= 126 {
        Operation::Many { direction: direction_of(word - 121), in_place: word >= 124 }
    } else {
        Operation::PlanNative { family: family_of(word - 126) }
    }
}

proof fn lemma_operation_of_word(operation: Operation)
    requires
        operation_word_of(operation) is Some,
    ensures
        operation_of(operation_word_of(operation)->0 as int) == operation,
{
}

/// No two operations share a word, so that a call of one is never taken for another.
pub proof fn law_operation_words_unique(left: Operation, right: Operation)
    requires
        operation_word_of(left) is Some,
        operation_word_of(left) == operation_word_of(right),
    ensures
        left == right,
{
    lemma_operation_of_word(left);
    lemma_operation_of_word(right);
}

/// The native constructions have the words behind the collections.
pub proof fn law_native_words(family: PlanFamily)
    ensures
        operation_word_of(Operation::PlanNative { family }) is Some,
        127 <= operation_word_of(Operation::PlanNative { family })->0 <= 132,
        operation_word_of(Operation::Many { direction: Direction::Forward, in_place: false }) == Some(
            121u64,
        ),
        operation_word_of(Operation::Many { direction: Direction::Backward, in_place: true }) == Some(
            126u64,
        ),
{
}

fn step_of(direction: Direction, in_place: bool) -> (step: u64)
    ensures
        step == direction_step(direction) + if in_place {
            3int
        } else {
            0
        },
{
    let first: u64 = match direction {
        Direction::Forward => 0,
        Direction::Inverse => 1,
        Direction::Backward => 2,
    };
    if in_place {
        first + 3
    } else {
        first
    }
}

/// Returns the word of an operation, if the family has the operation.
pub fn operation_word(operation: Operation) -> (word: Option<u64>)
    ensures
        word == operation_word_of(operation),
{
    match operation {
        Operation::Plan { family } => Some(7 * family.word() - 6),
        Operation::PlanNative { family } => Some(126 + family.word()),
        Operation::Run { family, direction, in_place } => Some(
            7 * family.word() - 5 + step_of(direction, in_place),
        ),
        Operation::Timed { family, direction, in_place } => match family {
            PlanFamily::R2c => Some(79 + step_of(direction, in_place)),
            PlanFamily::MixedC2c => Some(91 + step_of(direction, in_place)),
            PlanFamily::MixedR2c => Some(115 + step_of(direction, in_place)),
            PlanFamily::C2c | PlanFamily::R2r | PlanFamily::Dht => None,
        },
        Operation::Overlap { family, direction } => match family {
            PlanFamily::C2c => Some(55 + step_of(direction, false)),
            PlanFamily::R2c => Some(73 + step_of(direction, false)),
            PlanFamily::MixedC2c => Some(85 + step_of(direction, false)),
            PlanFamily::MixedR2c => Some(88 + step_of(direction, false)),
            PlanFamily::R2r | PlanFamily::Dht => None,
        },
        Operation::Many { direction, in_place } => Some(121 + step_of(direction, in_place)),
    }
}

/// Returns the word of an operation that the family has.
pub fn word_for(operation: Operation) -> (word: u64)
    requires
        operation_word_of(operation) is Some,
    ensures
        operation_word_of(operation) == Some(word),
{
    match operation_word(operation) {
        Some(word) => word,
        None => INVALID_WORD,
    }
}

/// Returns the word of an execution of a mixed complex plan.
pub fn mixed_c2c_operation(direction: Direction, in_place: bool) -> (word: u64)
    ensures
        operation_word_of(
            Operation::Run { family: PlanFamily::MixedC2c, direction, in_place },
        ) == Some(word),
{
    30 + step_of(direction, in_place)
}

/// Returns the word of an execution of a mixed real-to-complex plan.
pub fn mixed_r2c_operation(direction: Direction, in_place: bool) -> (word: u64)
    ensures
        operation_word_of(
            Operation::Run { family: PlanFamily::MixedR2c, direction, in_place },
        ) == Some(word),
{
    37 + step_of(direction, in_place)
}

/// The words that a construction with `n` axes and an `m` dimensional process grid agrees on
/// first.
pub open spec fn header_words(
    operation: u64,
    n: int,
    m: int,
    descriptor_len: Option<usize>,
) -> Seq<u64> {
    seq![
        DESCRIPTOR_SCHEMA,
        operation,
        n as u64,
        m as u64,
        match descriptor_len {
            Some(len) => len as u64,
            None => INVALID_WORD,
        },
    ]
}

/// Returns the words that a construction agrees on first.
pub fn mixed_header<const N: usize, const M: usize>(
    operation: u64,
    descriptor_len: Option<usize>,
) -> (header: [u64; 5])
    ensures
        header@ == header_words(operation, N as int, M as int, descriptor_len),
{
    let len_word: u64 = match descriptor_len {
        Some(len) => len as u64,
        None => INVALID_WORD,
    };
    let header: [u64; 5] = [DESCRIPTOR_SCHEMA, operation, N as u64, M as u64, len_word];
    assert(header@ =~= header_words(operation, N as int, M as int, descriptor_len));
    header
}

/// Lengths as words.
pub open spec fn words_of(values: Seq<usize>) -> Seq<u64> {
    Seq::new(values.len(), |i: int| values[i] as u64)
}

/// A shape as words: its rank, then its extents.
pub open spec fn shape_words(dimensions: Seq<usize>) -> Seq<u64> {
    seq![dimensions.len() as u64] + words_of(dimensions)
}

fn append_usizes(words: &mut Vec<u64>, values: &[usize])
    ensures
        final(words)@ == old(words)@ + words_of(values@),
{
    let mut i: usize = 0;
    while i < values.len()
        invariant
            i <= values@.len(),
            words@ == old(words)@ + words_of(values@.take(i as int)),
        decreases values@.len() - i,
    {
        words.push(values[i] as u64);
        proof {
            assert(words_of(values@.take(i + 1)) =~= words_of(values@.take(i as int)).push(
                values@[i as int] as u64,
            ));
        }
        i += 1;
        assert(words@ =~= old(words)@ + words_of(values@.take(i as int)));
    }
    assert(values@.take(i as int) =~= values@);
}

fn append_shape(words: &mut Vec<u64>, extra: &ExtraShape)
    ensures
        final(words)@ == old(words)@ + shape_words(extra.dimensions@),
{
    words.push(extra.dimensions.len() as u64);
    append_usizes(words, extra.dimensions.as_slice());
    assert(words@ =~= old(words)@ + shape_words(extra.dimensions@));
}

/// Words of a homogeneous descriptor, if they can be counted.
pub open spec fn spec_descriptor_len(n: int, m: int, extra: int) -> Option<usize> {
    if 2 * n + m + extra + 5 <= usize::MAX {
        Some((2 * n + m + extra + 5) as usize)
    } else {
        None
    }
}

/// Returns the words of a homogeneous descriptor.
pub fn descriptor_len<const N: usize, const M: usize>(extra: &ExtraShape) -> (len: Option<usize>)
    ensures
        len == spec_descriptor_len(N as int, M as int, extra.dimensions@.len() as int),
{
    let twice: usize = match N.checked_mul(2) {
        Some(value) => value,
        None => {
            return None;
        },
    };
    let grid: usize = match twice.checked_add(M) {
        Some(value) => value,
        None => {
            return None;
        },
    };
    match grid.checked_add(extra.dimensions.len()) {
        Some(value) => value.checked_add(5),
        None => None,
    }
}

proof fn lemma_words_of_injective(left: Seq<usize>, right: Seq<usize>)
    requires
        words_of(left) == words_of(right),
    ensures
        left == right,
{
    assert(words_of(left).len() == left.len());
    assert(words_of(right).len() == right.len());
    assert forall|i: int| 0 <= i < left.len() implies left[i] == right[i] by {
        assert(words_of(left)[i] == left[i] as u64);
        assert(words_of(right)[i] == right[i] as u64);
    }
    assert(left =~= right);
}

/// A flag as a word.
pub open spec fn flag_word(flag: bool) -> u64 {
    if flag {
        1
    } else {
        0
    }
}

/// The words that describe a homogeneous plan, of which `axis_words` describe the axes.
pub open spec fn descriptor_words(
    global_shape: Seq<usize>,
    process_grid: Seq<usize>,
    extra: Seq<usize>,
    value_kind: u64,
    scalar_bytes: usize,
    axis_words: Seq<u64>,
    layout: DistributedLayout,
) -> Seq<u64> {
    words_of(global_shape) + words_of(process_grid) + shape_words(extra) + seq![
        value_kind,
        scalar_bytes as u64,
    ] + axis_words + seq![
        layout.transpose_method.spec_descriptor_word(),
        flag_word(layout.permute_dims),
    ]
}

/// The word of each axis of a selection.
pub open spec fn selection_words<const N: usize>(selection: AxisSelection<N>) -> Seq<u64> {
    Seq::new(N as nat, |axis: int| flag_word(selection.mask@[axis]))
}

/// The word of each axis of a real-to-real plan; zero without a transform.
pub open spec fn kind_words<const N: usize>(kinds: [Option<AxisR2rKind>; N]) -> Seq<u64> {
    Seq::new(
        N as nat,
        |axis: int|
            match kinds@[axis] {
                Some(kind) => kind.spec_descriptor_code(),
                None => 0,
            },
    )
}

fn finish_descriptor(words: &mut Vec<u64>, layout: DistributedLayout)
    ensures
        final(words)@ == old(words)@ + seq![
            layout.transpose_method.spec_descriptor_word(),
            flag_word(layout.permute_dims),
        ],
{
    words.push(layout.transpose_method.descriptor_word());
    words.push(
        if layout.permute_dims {
            1
        } else {
            0
        },
    );
    assert(words@ =~= old(words)@ + seq![
        layout.transpose_method.spec_descriptor_word(),
        flag_word(layout.permute_dims),
    ]);
}

/// Words behind an empty list are the words.
pub proof fn lemma_empty_front(front: Seq<u64>, words: Seq<u64>)
    requires
        front.len() == 0,
    ensures
        front + words == words,
{
    assert(front + words =~= words);
}

/// Room for `additional` more words behind `words`, if the machine grants it.
fn more_room(words: Vec<u64>, additional: usize) -> (room: Option<Vec<u64>>)
    ensures
        room matches Some(front) ==> front@ == words@,
{
    let mut front: Vec<u64> = words;
    if reserve_exact(&mut front, additional) {
        Some(front)
    } else {
        None
    }
}

/// Room for a descriptor of `length` words, if they can be counted and the machine grants it.
pub fn descriptor_room(length: Option<usize>) -> (room: Option<Vec<u64>>)
    ensures
        length is None ==> room is None,
        room matches Some(front) ==> front@ == Seq::<u64>::empty(),
{
    match length {
        Some(length) => more_room(Vec::new(), length),
        None => None,
    }
}

/// Writes the words that describe a real-to-complex plan behind what `room` holds, if there is room.
pub fn write_descriptor<const N: usize, const M: usize>(
    room: Option<Vec<u64>>,
    process_grid: &[usize; M],
    global_shape: &[usize; N],
    extra: &ExtraShape,
    selection: &AxisSelection<N>,
    value_kind: u64,
    scalar_bytes: usize,
    layout: DistributedLayout,
) -> (result: Option<Vec<u64>>)
    ensures
        match room {
            Some(front) => result matches Some(words) && words@ == front@ + descriptor_words(
                global_shape@,
                process_grid@,
                extra.dimensions@,
                value_kind,
                scalar_bytes,
                selection_words(*selection),
                layout,
            ),
            None => result is None,
        },
{
    let mut words: Vec<u64> = match room {
        Some(front) => front,
        None => {
            return None;
        },
    };
    let ghost given = words@;
    append_usizes(&mut words, global_shape);
    append_usizes(&mut words, process_grid);
    append_shape(&mut words, extra);
    words.push(value_kind);
    words.push(scalar_bytes as u64);
    let ghost front = words@;
    let mut axis: usize = 0;
    while axis < N
        invariant
            axis <= N,
            words@ == front + selection_words(*selection).take(axis as int),
        decreases N - axis,
    {
        words.push(
            if selection.mask[axis] {
                1
            } else {
                0
            },
        );
        axis += 1;
        assert(words@ =~= front + selection_words(*selection).take(axis as int));
    }
    assert(selection_words(*selection).take(N as int) =~= selection_words(*selection));
    finish_descriptor(&mut words, layout);
    assert(words@ =~= given + descriptor_words(
        global_shape@,
        process_grid@,
        extra.dimensions@,
        value_kind,
        scalar_bytes,
        selection_words(*selection),
        layout,
    ));
    Some(words)
}

/// Returns the words that describe a real-to-complex plan, unless there is no room for them.
/// Whether there is rests on the machine; [`write_descriptor`] says what follows for each answer.
pub fn build_descriptor<const N: usize, const M: usize>(
    process_grid: &[usize; M],
    global_shape: &[usize; N],
    extra: &ExtraShape,
    selection: &AxisSelection<N>,
    value_kind: u64,
    scalar_bytes: usize,
    layout: DistributedLayout,
) -> (result: Option<Vec<u64>>)
    ensures
        result is Some ==> result->0@ == descriptor_words(
            global_shape@,
            process_grid@,
            extra.dimensions@,
            value_kind,
            scalar_bytes,
            selection_words(*selection),
            layout,
        ),
        spec_descriptor_len(N as int, M as int, extra.dimensions@.len() as int) is None
            ==> result is None,
{
    let room: Option<Vec<u64>> = descriptor_room(descriptor_len::<N, M>(extra));
    let result: Option<Vec<u64>> = write_descriptor(
        room,
        process_grid,
        global_shape,
        extra,
        selection,
        value_kind,
        scalar_bytes,
        layout,
    );
    proof {
        let described = descriptor_words(
            global_shape@,
            process_grid@,
            extra.dimensions@,
            value_kind,
            scalar_bytes,
            selection_words(*selection),
            layout,
        );
        assert(Seq::<u64>::empty() + described =~= described);
    }
    result
}

/// Writes the words that describe a real-to-real plan behind what `room` holds, if there is room.
pub fn write_r2r_descriptor<const N: usize, const M: usize>(
    room: Option<Vec<u64>>,
    process_grid: &[usize; M],
    global_shape: &[usize; N],
    extra: &ExtraShape,
    kinds: &[Option<AxisR2rKind>; N],
    value_kind: u64,
    scalar_bytes: usize,
    layout: DistributedLayout,
) -> (result: Option<Vec<u64>>)
    ensures
        match room {
            Some(front) => result matches Some(words) && words@ == front@ + descriptor_words(
                global_shape@,
                process_grid@,
                extra.dimensions@,
                value_kind,
                scalar_bytes,
                kind_words(*kinds),
                layout,
            ),
            None => result is None,
        },
{
    let mut words: Vec<u64> = match room {
        Some(front) => front,
        None => {
            return None;
        },
    };
    let ghost given = words@;
    append_usizes(&mut words, global_shape);
    append_usizes(&mut words, process_grid);
    append_shape(&mut words, extra);
    words.push(value_kind);
    words.push(scalar_bytes as u64);
    let ghost front = words@;
    let mut axis: usize = 0;
    while axis < N
        invariant
            axis <= N,
            words@ == front + kind_words(*kinds).take(axis as int),
        decreases N - axis,
    {
        words.push(
            match kinds[axis] {
                Some(kind) => kind.descriptor_code(),
                None => 0,
            },
        );
        axis += 1;
        assert(words@ =~= front + kind_words(*kinds).take(axis as int));
    }
    assert(kind_words(*kinds).take(N as int) =~= kind_words(*kinds));
    finish_descriptor(&mut words, layout);
    assert(words@ =~= given + descriptor_words(
        global_shape@,
        process_grid@,
        extra.dimensions@,
        value_kind,
        scalar_bytes,
        kind_words(*kinds),
        layout,
    ));
    Some(words)
}

/// Returns the words that describe a real-to-real plan, unless there is no room for them.
/// Whether there is rests on the machine; [`write_r2r_descriptor`] says what follows for each answer.
pub fn build_r2r_descriptor<const N: usize, const M: usize>(
    process_grid: &[usize; M],
    global_shape: &[usize; N],
    extra: &ExtraShape,
    kinds: &[Option<AxisR2rKind>; N],
    value_kind: u64,
    scalar_bytes: usize,
    layout: DistributedLayout,
) -> (result: Option<Vec<u64>>)
    ensures
        result is Some ==> result->0@ == descriptor_words(
            global_shape@,
            process_grid@,
            extra.dimensions@,
            value_kind,
            scalar_bytes,
            kind_words(*kinds),
            layout,
        ),
        spec_descriptor_len(N as int, M as int, extra.dimensions@.len() as int) is None
            ==> result is None,
{
    let room: Option<Vec<u64>> = descriptor_room(descriptor_len::<N, M>(extra));
    let result: Option<Vec<u64>> = write_r2r_descriptor(
        room,
        process_grid,
        global_shape,
        extra,
        kinds,
        value_kind,
        scalar_bytes,
        layout,
    );
    proof {
        let described = descriptor_words(
            global_shape@,
            process_grid@,
            extra.dimensions@,
            value_kind,
            scalar_bytes,
            kind_words(*kinds),
            layout,
        );
        assert(Seq::<u64>::empty() + described =~= described);
    }
    result
}

/// Ranks that agree on a homogeneous descriptor have the same shapes, process grid, extra
/// dimensions, values, axis words and layout policy.
pub proof fn law_descriptor_determines_plan(
    shape: Seq<usize>,
    other_shape: Seq<usize>,
    grid: Seq<usize>,
    other_grid: Seq<usize>,
    extra: Seq<usize>,
    other_extra: Seq<usize>,
    value_kind: u64,
    other_value_kind: u64,
    scalar_bytes: usize,
    other_scalar_bytes: usize,
    axes: Seq<u64>,
    other_axes: Seq<u64>,
    layout: DistributedLayout,
    other_layout: DistributedLayout,
)
    requires
        shape.len() == other_shape.len(),
        grid.len() == other_grid.len(),
        axes.len() == other_axes.len(),
        extra.len() <= usize::MAX,
        other_extra.len() <= usize::MAX,
        descriptor_words(shape, grid, extra, value_kind, scalar_bytes, axes, layout)
            == descriptor_words(
            other_shape,
            other_grid,
            other_extra,
            other_value_kind,
            other_scalar_bytes,
            other_axes,
            other_layout,
        ),
    ensures
        shape == other_shape,
        grid == other_grid,
        extra == other_extra,
        value_kind == other_value_kind,
        scalar_bytes == other_scalar_bytes,
        axes == other_axes,
        layout == other_layout,
{
    let words = descriptor_words(shape, grid, extra, value_kind, scalar_bytes, axes, layout);
    let n = shape.len() as int;
    let m = grid.len() as int;
    let k = axes.len() as int;
    assert(words[n + m] == extra.len() as u64);
    assert(words[n + m] == other_extra.len() as u64);
    let e = extra.len() as int;
    assert(words.subrange(0, n) =~= words_of(shape));
    assert(words.subrange(0, n) =~= words_of(other_shape));
    lemma_words_of_injective(shape, other_shape);
    assert(words.subrange(n, n + m) =~= words_of(grid));
    assert(words.subrange(n, n + m) =~= words_of(other_grid));
    lemma_words_of_injective(grid, other_grid);
    assert(words.subrange(n + m + 1, n + m + 1 + e) =~= words_of(extra));
    assert(words.subrange(n + m + 1, n + m + 1 + e) =~= words_of(other_extra));
    lemma_words_of_injective(extra, other_extra);
    let p = n + m + 1 + e;
    assert(words[p] == value_kind && words[p] == other_value_kind);
    assert(words[p + 1] == scalar_bytes as u64 && words[p + 1] == other_scalar_bytes as u64);
    assert(words.subrange(p + 2, p + 2 + k) =~= axes);
    assert(words.subrange(p + 2, p + 2 + k) =~= other_axes);
    assert(words[p + 2 + k] == layout.transpose_method.spec_descriptor_word());
    assert(words[p + 2 + k] == other_layout.transpose_method.spec_descriptor_word());
    assert(words[p + 3 + k] == flag_word(layout.permute_dims));
    assert(words[p + 3 + k] == flag_word(other_layout.permute_dims));
}

/// The axis words of a selection determine it.
pub proof fn law_selection_words_unique<const N: usize>(
    left: AxisSelection<N>,
    right: AxisSelection<N>,
)
    requires
        selection_words(left) == selection_words(right),
    ensures
        left.mask@ == right.mask@,
{
    assert forall|axis: int| 0 <= axis < N implies left.mask@[axis] == right.mask@[axis] by {
        assert(selection_words(left)[axis] == flag_word(left.mask@[axis]));
        assert(selection_words(right)[axis] == flag_word(right.mask@[axis]));
    }
    assert(left.mask@ =~= right.mask@);
}

/// The axis words of a real-to-real plan determine its kinds.
pub proof fn law_kind_words_unique<const N: usize>(
    left: [Option<AxisR2rKind>; N],
    right: [Option<AxisR2rKind>; N],
)
    requires
        kind_words(left) == kind_words(right),
    ensures
        left@ == right@,
{
    assert forall|axis: int| 0 <= axis < N implies left@[axis] == right@[axis] by {
        assert(kind_words(left)[axis] == match left@[axis] {
            Some(kind) => kind.spec_descriptor_code(),
            None => 0,
        });
        assert(kind_words(right)[axis] == match right@[axis] {
            Some(kind) => kind.spec_descriptor_code(),
            None => 0,
        });
        if left@[axis] is Some {
            lemma_descriptor_code_unique(left@[axis]->0, left@[axis]->0);
        }
        if right@[axis] is Some {
            lemma_descriptor_code_unique(right@[axis]->0, right@[axis]->0);
        }
        if left@[axis] is Some && right@[axis] is Some {
            lemma_descriptor_code_unique(left@[axis]->0, right@[axis]->0);
        }
    }
    assert(left@ =~= right@);
}

/// The two words of a transform.
pub open spec fn spec_axis_transform_words(transform: AxisTransform) -> (u64, u64) {
    match transform {
        AxisTransform::Unchanged => (0, 0),
        AxisTransform::Fft => (1, 0),
        AxisTransform::Rfft => (2, 0),
        AxisTransform::R2r(kind) => (3, kind.spec_descriptor_code()),
    }
}

/// Returns the two words of a transform.
pub fn axis_transform_words(transform: AxisTransform) -> (words: (u64, u64))
    ensures
        words == spec_axis_transform_words(transform),
{
    match transform {
        AxisTransform::Unchanged => (0, 0),
        AxisTransform::Fft => (1, 0),
        AxisTransform::Rfft => (2, 0),
        AxisTransform::R2r(kind) => (3, kind.descriptor_code()),
    }
}

/// Transforms that differ have words that differ.
pub proof fn lemma_axis_transform_words_unique(left: AxisTransform, right: AxisTransform)
    requires
        spec_axis_transform_words(left) == spec_axis_transform_words(right),
    ensures
        left == right,
{
}

/// Words of a mixed descriptor before the backend and the signs, if they can be counted.
pub open spec fn spec_mixed_descriptor_len(n: int, m: int, extra: int) -> Option<usize> {
    if 4 * n + m + extra + 9 <= usize::MAX {
        Some((4 * n + m + extra + 9) as usize)
    } else {
        None
    }
}

/// Returns the words of a mixed descriptor before the backend and the signs.
pub fn mixed_descriptor_len<const N: usize, const M: usize>(extra: &ExtraShape) -> (len: Option<
    usize,
>)
    ensures
        len == spec_mixed_descriptor_len(N as int, M as int, extra.dimensions@.len() as int),
{
    let four: usize = match N.checked_mul(4) {
        Some(value) => value,
        None => {
            return None;
        },
    };
    let grid: usize = match four.checked_add(M) {
        Some(value) => value,
        None => {
            return None;
        },
    };
    match grid.checked_add(extra.dimensions.len()) {
        Some(value) => value.checked_add(9),
        None => None,
    }
}

/// The words of the transforms, two for each axis.
pub open spec fn transform_words<const N: usize>(transforms: [AxisTransform; N]) -> Seq<u64> {
    Seq::new(
        2 * N as nat,
        |i: int|
            if i % 2 == 0 {
                spec_axis_transform_words(transforms@[i / 2]).0
            } else {
                spec_axis_transform_words(transforms@[i / 2]).1
            },
    )
}

/// The word of the sign of each axis.
pub open spec fn sign_words<const N: usize>(directions: FourierDirections<N>) -> Seq<u64> {
    Seq::new(
        N as nat,
        |axis: int|
            match directions.0@[axis] {
                FourierDirection::Forward => 0u64,
                FourierDirection::Backward => 1u64,
            },
    )
}

/// What a mixed descriptor describes besides shapes and transforms.
#[derive(Clone, Copy, Debug)]
pub struct MixedDescriptorFacts {
    /// One for a complex plan, two for a real-to-complex plan.
    pub family: u64,
    /// Bytes of a real scalar.
    pub scalar_bytes: usize,
    /// The reduced axis, if there is one; else the largest number.
    pub reduction_axis: usize,
    /// Reals along the reduced axis; zero without one.
    pub original_len: usize,
    /// The layout policy.
    pub layout: DistributedLayout,
}

/// The words of what a mixed descriptor describes besides shapes and transforms.
pub open spec fn fact_words(facts: MixedDescriptorFacts) -> Seq<u64> {
    seq![
        facts.family,
        if facts.family == 1 {
            VALUE_KIND_C2C
        } else {
            VALUE_KIND_R2C
        },
        facts.scalar_bytes as u64,
        (2 * facts.scalar_bytes) as u64,
        facts.reduction_axis as u64,
        facts.original_len as u64,
        facts.layout.transpose_method.spec_descriptor_word(),
        flag_word(facts.layout.permute_dims),
    ]
}

/// The words that describe a mixed plan before the backend and the signs.
pub open spec fn mixed_descriptor_words<const N: usize>(
    input_shape: Seq<usize>,
    output_shape: Seq<usize>,
    process_grid: Seq<usize>,
    extra: Seq<usize>,
    facts: MixedDescriptorFacts,
    transforms: [AxisTransform; N],
) -> Seq<u64> {
    words_of(input_shape) + words_of(output_shape) + words_of(process_grid) + shape_words(extra)
        + fact_words(facts) + transform_words(transforms)
}

/// The words of a backend tell it, and the options of its planner, from others.
pub open spec fn tells_apart<V: Fn(BackendChoice) -> [u64; 7]>(words: V) -> bool {
    forall|one: BackendChoice, other: BackendChoice, answer: [u64; 7], other_answer: [u64; 7]|
        #[trigger] words.ensures((one,), answer) && #[trigger] words.ensures(
            (other,),
            other_answer,
        ) && answer@ == other_answer@ ==> one == other
}

/// Ranks that agree on a mixed descriptor asked for the same backend with the same options, where the
/// words of a backend tell it from others.
pub proof fn law_mixed_descriptor_determines_backend<V: Fn(BackendChoice) -> [u64; 7], const N: usize>(
    words: V,
    inputs: (Seq<usize>, Seq<usize>),
    outputs: (Seq<usize>, Seq<usize>),
    grids: (Seq<usize>, Seq<usize>),
    extras: (Seq<usize>, Seq<usize>),
    facts: (MixedDescriptorFacts, MixedDescriptorFacts),
    transforms: ([AxisTransform; N], [AxisTransform; N]),
    backends: (BackendChoice, BackendChoice),
    answers: ([u64; 7], [u64; 7]),
    directions: (FourierDirections<N>, FourierDirections<N>),
)
    requires
        tells_apart(words),
        words.ensures((backends.0,), answers.0),
        words.ensures((backends.1,), answers.1),
        inputs.0.len() == N,
        inputs.1.len() == N,
        outputs.0.len() == N,
        outputs.1.len() == N,
        grids.0.len() == grids.1.len(),
        extras.0.len() <= usize::MAX,
        extras.1.len() <= usize::MAX,
        mixed_descriptor_words(inputs.0, outputs.0, grids.0, extras.0, facts.0, transforms.0)
            + answers.0@ + sign_words(directions.0) == mixed_descriptor_words(
            inputs.1,
            outputs.1,
            grids.1,
            extras.1,
            facts.1,
            transforms.1,
        ) + answers.1@ + sign_words(directions.1),
    ensures
        backends.0 == backends.1,
{
    law_mixed_descriptor_determines_plan(
        inputs.0,
        inputs.1,
        outputs.0,
        outputs.1,
        grids.0,
        grids.1,
        extras.0,
        extras.1,
        facts.0,
        facts.1,
        transforms.0,
        transforms.1,
        answers.0@,
        answers.1@,
        directions.0,
        directions.1,
    );
}

/// Ranks that agree on a mixed descriptor have the same shapes, process grid, extra dimensions,
/// transforms, backend words, signs and facts.
pub proof fn law_mixed_descriptor_determines_plan<const N: usize>(
    input: Seq<usize>,
    other_input: Seq<usize>,
    output: Seq<usize>,
    other_output: Seq<usize>,
    grid: Seq<usize>,
    other_grid: Seq<usize>,
    extra: Seq<usize>,
    other_extra: Seq<usize>,
    facts: MixedDescriptorFacts,
    other_facts: MixedDescriptorFacts,
    transforms: [AxisTransform; N],
    other_transforms: [AxisTransform; N],
    backend: Seq<u64>,
    other_backend: Seq<u64>,
    directions: FourierDirections<N>,
    other_directions: FourierDirections<N>,
)
    requires
        input.len() == N,
        other_input.len() == N,
        output.len() == N,
        other_output.len() == N,
        grid.len() == other_grid.len(),
        extra.len() <= usize::MAX,
        other_extra.len() <= usize::MAX,
        backend.len() == 7,
        other_backend.len() == 7,
        mixed_descriptor_words(input, output, grid, extra, facts, transforms) + backend
            + sign_words(directions) == mixed_descriptor_words(
            other_input,
            other_output,
            other_grid,
            other_extra,
            other_facts,
            other_transforms,
        ) + other_backend + sign_words(other_directions),
    ensures
        input == other_input,
        output == other_output,
        grid == other_grid,
        extra == other_extra,
        facts == other_facts,
        transforms@ == other_transforms@,
        backend == other_backend,
        directions.0@ == other_directions.0@,
{
    let n = N as int;
    let m = grid.len() as int;
    let signs = sign_words(directions);
    let other_signs = sign_words(other_directions);
    let body = mixed_descriptor_words(input, output, grid, extra, facts, transforms);
    let other_body = mixed_descriptor_words(
        other_input,
        other_output,
        other_grid,
        other_extra,
        other_facts,
        other_transforms,
    );
    let words = body + backend + signs;
    assert(words[2 * n + m] == extra.len() as u64);
    assert((other_body + other_backend + other_signs)[2 * n + m] == other_extra.len() as u64);
    lemma_concat_split(body + backend, signs, other_body + other_backend, other_signs);
    lemma_concat_split(body, backend, other_body, other_backend);
    let kinds = transform_words(transforms);
    let other_kinds = transform_words(other_transforms);
    let middle = fact_words(facts);
    let other_middle = fact_words(other_facts);
    let shapes = words_of(input) + words_of(output) + words_of(grid) + shape_words(extra);
    let other_shapes = words_of(other_input) + words_of(other_output) + words_of(other_grid)
        + shape_words(other_extra);
    lemma_concat_split(shapes + middle, kinds, other_shapes + other_middle, other_kinds);
    lemma_concat_split(shapes, middle, other_shapes, other_middle);
    lemma_fact_words_unique(facts, other_facts);
    lemma_concat_split(
        words_of(input) + words_of(output) + words_of(grid),
        shape_words(extra),
        words_of(other_input) + words_of(other_output) + words_of(other_grid),
        shape_words(other_extra),
    );
    lemma_concat_split(
        seq![extra.len() as u64],
        words_of(extra),
        seq![other_extra.len() as u64],
        words_of(other_extra),
    );
    lemma_concat_split(
        words_of(input) + words_of(output),
        words_of(grid),
        words_of(other_input) + words_of(other_output),
        words_of(other_grid),
    );
    lemma_concat_split(
        words_of(input),
        words_of(output),
        words_of(other_input),
        words_of(other_output),
    );
    lemma_words_of_injective(input, other_input);
    lemma_words_of_injective(output, other_output);
    lemma_words_of_injective(grid, other_grid);
    lemma_words_of_injective(extra, other_extra);
    lemma_transform_words_unique(transforms, other_transforms);
    lemma_sign_words_unique(directions, other_directions);
}

proof fn lemma_concat_split(left: Seq<u64>, tail: Seq<u64>, other: Seq<u64>, other_tail: Seq<u64>)
    requires
        left + tail == other + other_tail,
        left.len() == other.len(),
    ensures
        left == other,
        tail == other_tail,
{
    let whole = left + tail;
    assert(whole.take(left.len() as int) =~= left);
    assert(whole.take(left.len() as int) =~= other);
    assert(whole.skip(left.len() as int) =~= tail);
    assert(whole.skip(left.len() as int) =~= other_tail);
}

proof fn lemma_fact_words_unique(facts: MixedDescriptorFacts, other: MixedDescriptorFacts)
    requires
        fact_words(facts) == fact_words(other),
    ensures
        facts == other,
{
    let words = fact_words(facts);
    let others = fact_words(other);
    assert(words[0] == others[0]);
    assert(words[2] == others[2]);
    assert(words[4] == others[4]);
    assert(words[5] == others[5]);
    assert(words[6] == others[6]);
    assert(words[7] == others[7]);
}

proof fn lemma_transform_words_unique<const N: usize>(
    left: [AxisTransform; N],
    right: [AxisTransform; N],
)
    requires
        transform_words(left) == transform_words(right),
    ensures
        left@ == right@,
{
    assert forall|axis: int| 0 <= axis < N implies left@[axis] == right@[axis] by {
        assert(transform_words(left)[2 * axis] == spec_axis_transform_words(left@[axis]).0);
        assert(transform_words(left)[2 * axis + 1] == spec_axis_transform_words(left@[axis]).1);
        assert(transform_words(right)[2 * axis] == spec_axis_transform_words(right@[axis]).0);
        assert(transform_words(right)[2 * axis + 1] == spec_axis_transform_words(right@[axis]).1);
        lemma_axis_transform_words_unique(left@[axis], right@[axis]);
    }
    assert(left@ =~= right@);
}

proof fn lemma_sign_words_unique<const N: usize>(
    left: FourierDirections<N>,
    right: FourierDirections<N>,
)
    requires
        sign_words(left) == sign_words(right),
    ensures
        left.0@ == right.0@,
{
    assert forall|axis: int| 0 <= axis < N implies left.0@[axis] == right.0@[axis] by {
        assert(sign_words(left)[axis] == match left.0@[axis] {
            FourierDirection::Forward => 0u64,
            FourierDirection::Backward => 1u64,
        });
        assert(sign_words(right)[axis] == match right.0@[axis] {
            FourierDirection::Forward => 0u64,
            FourierDirection::Backward => 1u64,
        });
    }
    assert(left.0@ =~= right.0@);
}

/// Writes the words that describe a mixed plan behind what `room` holds, if there is room.
pub fn write_mixed_descriptor<const N: usize, const M: usize>(
    room: Option<Vec<u64>>,
    process_grid: &[usize; M],
    input_shape: &[usize; N],
    output_shape: &[usize; N],
    extra: &ExtraShape,
    transforms: &[AxisTransform; N],
    facts: &MixedDescriptorFacts,
) -> (result: Option<Vec<u64>>)
    requires
        facts.scalar_bytes == 4 || facts.scalar_bytes == 8,
    ensures
        match room {
            Some(front) => result matches Some(words) && words@ == front@ + mixed_descriptor_words(
                input_shape@,
                output_shape@,
                process_grid@,
                extra.dimensions@,
                *facts,
                *transforms,
            ),
            None => result is None,
        },
{
    let mut words: Vec<u64> = match room {
        Some(front) => front,
        None => {
            return None;
        },
    };
    let ghost given = words@;
    append_usizes(&mut words, input_shape);
    append_usizes(&mut words, output_shape);
    append_usizes(&mut words, process_grid);
    append_shape(&mut words, extra);
    words.push(facts.family);
    words.push(
        if facts.family == 1 {
            VALUE_KIND_C2C
        } else {
            VALUE_KIND_R2C
        },
    );
    words.push(facts.scalar_bytes as u64);
    words.push((2 * facts.scalar_bytes) as u64);
    words.push(facts.reduction_axis as u64);
    words.push(facts.original_len as u64);
    finish_descriptor(&mut words, facts.layout);
    let ghost front = words@;
    let mut axis: usize = 0;
    while axis < N
        invariant
            axis <= N,
            words@ == front + transform_words(*transforms).take(2 * axis),
        decreases N - axis,
    {
        let (tag, kind) = axis_transform_words(transforms[axis]);
        words.push(tag);
        words.push(kind);
        proof {
            let all = transform_words(*transforms);
            assert(all[2 * axis] == tag);
            assert(all[2 * axis + 1] == kind);
            assert(all.take(2 * axis + 2) =~= all.take(2 * axis).push(tag).push(kind));
        }
        axis += 1;
        assert(words@ =~= front + transform_words(*transforms).take(2 * axis));
    }
    assert(transform_words(*transforms).take(2 * N) =~= transform_words(*transforms));
    assert(words@ =~= given + mixed_descriptor_words(
        input_shape@,
        output_shape@,
        process_grid@,
        extra.dimensions@,
        *facts,
        *transforms,
    ));
    Some(words)
}

/// Writes the words of a backend and of the signs behind what `room` holds, if there is room.
pub fn write_backend_words<const N: usize>(
    room: Option<Vec<u64>>,
    backend_words: &[u64; 7],
    directions: &FourierDirections<N>,
) -> (result: Option<Vec<u64>>)
    ensures
        match room {
            Some(front) => result matches Some(words) && words@ == front@ + backend_words@
                + sign_words(*directions),
            None => result is None,
        },
{
    let mut words: Vec<u64> = match room {
        Some(front) => front,
        None => {
            return None;
        },
    };
    let ghost described = words@;
    let mut i: usize = 0;
    while i < 7
        invariant
            i <= 7,
            words@ == described + backend_words@.take(i as int),
        decreases 7 - i,
    {
        words.push(backend_words[i]);
        i += 1;
        assert(words@ =~= described + backend_words@.take(i as int));
    }
    assert(backend_words@.take(7) =~= backend_words@);
    let ghost backed = words@;
    let mut axis: usize = 0;
    while axis < N
        invariant
            axis <= N,
            words@ == backed + sign_words(*directions).take(axis as int),
        decreases N - axis,
    {
        words.push(
            match directions.0[axis] {
                FourierDirection::Forward => 0,
                FourierDirection::Backward => 1,
            },
        );
        axis += 1;
        assert(words@ =~= backed + sign_words(*directions).take(axis as int));
    }
    assert(sign_words(*directions).take(N as int) =~= sign_words(*directions));
    Some(words)
}

/// Returns the words that describe a mixed plan, followed by those of the backend and of the
/// signs, unless there is no room for them. Whether there is rests on the machine;
/// [`write_mixed_descriptor`] and [`write_backend_words`] say what follows for each answer.
pub fn build_mixed_descriptor<const N: usize, const M: usize>(
    process_grid: &[usize; M],
    input_shape: &[usize; N],
    output_shape: &[usize; N],
    extra: &ExtraShape,
    transforms: &[AxisTransform; N],
    facts: &MixedDescriptorFacts,
    backend_words: &[u64; 7],
    directions: &FourierDirections<N>,
) -> (result: Option<Vec<u64>>)
    requires
        facts.scalar_bytes == 4 || facts.scalar_bytes == 8,
    ensures
        result is Some ==> result->0@ == mixed_descriptor_words(
            input_shape@,
            output_shape@,
            process_grid@,
            extra.dimensions@,
            *facts,
            *transforms,
        ) + backend_words@ + sign_words(*directions),
        spec_mixed_descriptor_len(N as int, M as int, extra.dimensions@.len() as int) is None
            ==> result is None,
{
    let room: Option<Vec<u64>> = descriptor_room(mixed_descriptor_len::<N, M>(extra));
    let described: Option<Vec<u64>> = write_mixed_descriptor(
        room,
        process_grid,
        input_shape,
        output_shape,
        extra,
        transforms,
        facts,
    );
    proof {
        let plan_words = mixed_descriptor_words(
            input_shape@,
            output_shape@,
            process_grid@,
            extra.dimensions@,
            *facts,
            *transforms,
        );
        assert(Seq::<u64>::empty() + plan_words =~= plan_words);
    }
    let room: Option<Vec<u64>> = match described {
        Some(words) => match N.checked_add(7) {
            Some(tail) => more_room(words, tail),
            None => None,
        },
        None => None,
    };
    write_backend_words(room, backend_words, directions)
}

} // verus!
