use pencil_fft::boundary::ceil_log2_len;
use pencil_fft::boundary::depth_term;
use pencil_fft::boundary::mixed_endpoint_depth;
use pencil_fft::boundary::mixed_endpoint_terms;
use pencil_fft::boundary::normalization_depth;
use pencil_fft::boundary::plane_count;
use pencil_fft::boundary::transverse_extents;
use pencil_fft::boundary::zero_accepted_boundary;
use pencil_fft::boundary::zero_mixed_boundary_data;
use pencil_fft::boundary::DepthTerm;
use pencil_fft::boundary::ReducedAxis;
use pencil_fft::error::map_mixed_overlap;
use pencil_fft::error::map_overwrite;
use pencil_fft::error::map_overwrite_error;
use pencil_fft::error::map_r2c_overlap;
use pencil_fft::error::ArrayError;
use pencil_fft::error::FftError;
use pencil_fft::error::FftOverlapError;
use pencil_fft::error::LocalR2rError;
use pencil_fft::error::MixedError;
use pencil_fft::error::OverlapError;
use pencil_fft::error::OverwriteError;
use pencil_fft::error::R2cError;
use pencil_fft::error::R2rError;
use pencil_fft::error::TransposeError;
use pencil_fft::graph::validate_c2c_graph;
use pencil_fft::graph::validate_kinds;
use pencil_fft::graph::validate_r2c_graph;
use pencil_fft::graph::validate_stage_pencil;
use pencil_fft::handoff::convert_recast_forward;
use pencil_fft::handoff::convert_recast_reverse;
use pencil_fft::handoff::LineBuffers;
use pencil_fft::layout::memory_stride;
use pencil_fft::layout::strided_line_count;
use pencil_fft::layout::AxisSelection;
use pencil_fft::layout::Direction;
use pencil_fft::layout::DistributedLayout;
use pencil_fft::layout::ExtraShape;
use pencil_fft::layout::FourierDirection;
use pencil_fft::layout::FourierDirections;
use pencil_fft::layout::Pencil;
use pencil_fft::layout::TransposeMethod;
use pencil_fft::local::AxisR2rKind;
use pencil_fft::local::AxisTransform;
use pencil_fft::local::LocalC2cPlan;
use pencil_fft::local::LocalR2cPlan;
use pencil_fft::local::LocalR2rPlan;
use pencil_fft::local::MixedComplexLocal;
use pencil_fft::local::MixedR2cStageLocal;
use pencil_fft::local::MixedR2rLocal;
use pencil_fft::local::MixedRealLocal;
use pencil_fft::local::R2rKind;
use pencil_fft::local::R2rLocal;
use pencil_fft::recast::demote_reals;
use pencil_fft::recast::promote_reals;
use pencil_fft::registry::registered_layout_matches;
use pencil_fft::registry::registered_real_stage_pencils;
use pencil_fft::registry::registered_stage_pencils;
use pencil_fft::registry::validate_exact_pencil_list;
use pencil_fft::registry::validate_exact_pencil_registry;
use pencil_fft::registry::Stage;
use pencil_fft::schedule::Itinerary;
use pencil_fft::schedule::Mode;
use pencil_fft::schedule::RouteKind;
use pencil_fft::schedule::Slot;
use pencil_fft::schedule::Step;
use pencil_fft::schedule::Work;
use pencil_fft::stages::execute_local;
use pencil_fft::stages::execute_local_in_place;
use pencil_fft::storage::boundary_row_count;
use pencil_fft::storage::in_place_storage_requirements;
use pencil_fft::storage::promoted_complex_len;
use pencil_fft::storage::strided_phase_shape;
use pencil_fft::storage::validate_mixed_recast_capacity;
use pencil_fft::storage::validate_recast_capacity;
use pencil_fft::storage::StorageNeeds;
use pencil_fft::storage::StridedPhase;
use pencil_fft::timing::StageTiming;
use pencil_fft::timing::TransformTiming;
use pencil_fft::words::build_descriptor;
use pencil_fft::words::build_mixed_descriptor;
use pencil_fft::words::build_r2r_descriptor;
use pencil_fft::words::mixed_c2c_operation;
use pencil_fft::words::mixed_header;
use pencil_fft::words::mixed_r2c_operation;
use pencil_fft::words::write_backend_words;
use pencil_fft::words::write_descriptor;
use pencil_fft::words::write_mixed_descriptor;
use pencil_fft::words::write_r2r_descriptor;
use pencil_fft::words::MixedDescriptorFacts;
use pencil_fft::words::VALUE_KIND_R2C;
use pencil_fft::workspace::initialized_vec;

fn pencil(shape: [usize; 3], order: [usize; 3], distributed: usize) -> Pencil<3, 1> {
    Pencil::from_parts(1, 1, shape, [distributed], order, shape).unwrap()
}

fn stage(axis: usize, input: Pencil<3, 1>, output: Pencil<3, 1>) -> Stage<3, 1> {
    Stage { axis, input, output }
}

#[test]
fn stride_counts_the_faster_axes() {
    let plain = pencil([2, 3, 5], [0, 1, 2], 0);
    assert_eq!(plain.local_len, 30);
    assert_eq!(memory_stride(&plain, 2), Ok(1));
    assert_eq!(memory_stride(&plain, 1), Ok(5));
    assert_eq!(memory_stride(&plain, 0), Ok(15));
    let turned = pencil([2, 3, 5], [2, 0, 1], 0);
    assert_eq!(memory_stride(&turned, 1), Ok(1));
    assert_eq!(memory_stride(&turned, 0), Ok(3));
    assert_eq!(memory_stride(&turned, 2), Ok(6));
    assert_eq!(memory_stride(&turned, 3), Err(FftError::PreparationFailed));
}

#[test]
fn lines_must_fill_whole_blocks() {
    assert_eq!(strided_line_count(24, 3, 4), Ok(2));
    assert_eq!(strided_line_count(25, 3, 4), Err(FftError::PreparationFailed));
    assert_eq!(strided_line_count(24, 0, 4), Err(FftError::PreparationFailed));
    assert_eq!(strided_line_count(24, usize::MAX, 2), Err(FftError::PreparationFailed));
}

#[test]
fn extra_dimensions_multiply() {
    let shape = ExtraShape::from_dimensions(vec![2, 3]).unwrap();
    assert_eq!(shape.element_count, 6);
    assert_eq!(ExtraShape::scalar().element_count, 1);
    assert!(ExtraShape::from_dimensions(vec![0, usize::MAX, 2]).is_none());
    assert!(shape.same(&shape.duplicate()));
    assert!(!shape.same(&ExtraShape::scalar()));
}

#[test]
fn graphs_have_one_boundary_in_its_place() {
    let dht = AxisTransform::R2r(AxisR2rKind::Dht);
    assert_eq!(
        validate_r2c_graph([4, 4, 4], [AxisTransform::Fft, AxisTransform::Rfft, dht]),
        Ok(1)
    );
    assert_eq!(
        validate_r2c_graph([4, 4, 4], [dht, AxisTransform::Rfft, AxisTransform::Fft]),
        Err(MixedError::InvalidGraph)
    );
    assert_eq!(
        validate_r2c_graph([4, 0, 4], [dht, AxisTransform::Rfft, dht]),
        Err(MixedError::InvalidGraph)
    );
    assert_eq!(validate_c2c_graph([AxisTransform::Fft, dht]), Ok(()));
    assert_eq!(
        validate_c2c_graph([AxisTransform::Fft, AxisTransform::Rfft]),
        Err(MixedError::InvalidGraph)
    );
    assert_eq!(validate_kinds([2, 1], [Some(R2rKind::DctI), Some(R2rKind::DctII)]), Ok(()));
    assert_eq!(
        validate_kinds([2, 1], [None, Some(R2rKind::DctI)]),
        Err(R2rError::LocalR2r(LocalR2rError::InvalidLength))
    );
}

#[test]
fn stages_need_their_axis_whole() {
    let placed = pencil([2, 3, 5], [0, 1, 2], 1);
    assert_eq!(validate_stage_pencil(&placed, 2, 5), Ok(()));
    let failed = Err(MixedError::Fft(FftError::PreparationFailed));
    assert_eq!(validate_stage_pencil(&placed, 2, 4), failed);
    assert_eq!(validate_stage_pencil(&placed, 1, 3), failed);
}

#[test]
fn registries_hold_each_layout_once() {
    let first = pencil([2, 3, 4], [0, 1, 2], 0);
    let second = pencil([2, 3, 4], [0, 1, 2], 1);
    let reduced = pencil([2, 3, 3], [0, 1, 2], 1);
    let stages = vec![
        stage(2, first, first),
        stage(1, first, first),
        stage(0, second, reduced),
    ];
    let reals = registered_real_stage_pencils(&stages, 2).unwrap();
    assert_eq!(reals.len(), 2);
    assert!(reals[0].same_layout(&first) && reals[1].same_layout(&second));
    let complexes = registered_stage_pencils(&stages, 0).unwrap();
    assert_eq!(complexes.len(), 2);
    assert!(complexes[1].same_layout(&reduced));
    assert!(registered_layout_matches(&reals, &stages, 0, 3, true));
    assert!(!registered_layout_matches(&reals, &stages, 0, 3, false));
    assert_eq!(validate_exact_pencil_list(&reals, &vec![second, first]), Ok(()));
    assert_eq!(
        validate_exact_pencil_list(&reals, &complexes),
        Err(FftError::WorkspaceMismatch)
    );
    let scalar = ExtraShape::scalar();
    assert_eq!(validate_exact_pencil_registry(&reals, &reals, &second, 24, &scalar), Ok(()));
    assert!(validate_exact_pencil_registry(&reals, &reals, &second, 23, &scalar).is_err());
    assert!(registered_real_stage_pencils(&stages, 3).is_err());
}

#[test]
fn storage_serves_both_sides() {
    let input = pencil([2, 3, 8], [0, 1, 2], 0);
    let output = pencil([2, 3, 5], [0, 1, 2], 0);
    let stages = vec![stage(2, input, output)];
    assert_eq!(
        in_place_storage_requirements(&stages, Some(0), 1, 8),
        Ok(StorageNeeds { real_len: 48, complex_len: 30, storage_bytes: 480, complex_capacity: 30 })
    );
    assert_eq!(
        in_place_storage_requirements(&stages, None, 1, 8),
        Err(FftError::PreparationFailed)
    );
    let turned = pencil([2, 3, 8], [2, 0, 1], 0);
    let turned_output = pencil([2, 3, 5], [2, 0, 1], 0);
    let strided = vec![stage(2, turned, turned_output)];
    assert_eq!(
        in_place_storage_requirements(&strided, Some(0), 1, 4),
        Ok(StorageNeeds { real_len: 48, complex_len: 30, storage_bytes: 384, complex_capacity: 48 })
    );
    assert_eq!(promoted_complex_len(&strided[0], 48, 30, 4), Ok(48));
    assert_eq!(promoted_complex_len(&stages[0], 48, 30, 8), Ok(30));
    let plan = LocalR2cPlan { real_len: 8, complex_len: 5, scratch_len: 0 };
    assert_eq!(
        strided_phase_shape(&strided, Some(0), &plan, 1, 4),
        Ok(Some(StridedPhase { rows: 6, groups: 1, real_span: 48, complex_span: 30 }))
    );
    assert_eq!(strided_phase_shape(&stages, Some(0), &plan, 1, 4), Ok(None));
    assert_eq!(boundary_row_count(48, 8, 2), Ok(12));
    assert_eq!(boundary_row_count(47, 8, 2), Err(FftError::PreparationFailed));
}

#[test]
fn recasts_need_room_and_alignment() {
    assert_eq!(validate_recast_capacity::<u64, [u64; 2]>(6, 48), Ok(()));
    assert_eq!(
        validate_recast_capacity::<u64, [u64; 2]>(5, 48),
        Err(FftError::StorageLayoutMismatch)
    );
    assert_eq!(
        validate_recast_capacity::<u64, [u64; 2]>(7, 48),
        Err(FftError::StorageLayoutMismatch)
    );
    assert_eq!(validate_mixed_recast_capacity::<[u32; 2], u32>(3, 24), Ok(()));
    assert_eq!(
        validate_mixed_recast_capacity::<[u32; 2], u32>(2, 24),
        Err(MixedError::Fft(FftError::StorageLayoutMismatch))
    );
}

#[test]
fn reals_are_promoted_and_demoted() {
    let mut pairs: Vec<[u32; 2]> = vec![[1, 2], [3, 4], [9, 9], [9, 9]];
    assert_eq!(promote_reals(&mut pairs, 4), Ok(()));
    assert_eq!(pairs, vec![[1, 0], [2, 0], [3, 0], [4, 0]]);
    let mut scalars: Vec<u32> = vec![1, 0, 2, 0, 3, 0];
    assert_eq!(demote_reals(&mut scalars, 3), Ok(()));
    assert_eq!(scalars[..3], [1, 2, 3]);
}

#[test]
fn rows_are_converted_in_one_allocation() {
    let plan = LocalR2cPlan { real_len: 2, complex_len: 2, scratch_len: 0 };
    let buffers = LineBuffers {
        real_source_line: Some(2),
        real_line: 2,
        complex_source_line: 2,
        complex_line: 2,
    };
    let forward = |line: &[u32], _len: usize| -> Result<Vec<[u32; 2]>, ()> {
        Ok(line.iter().map(|value| [*value, value + 100]).collect())
    };
    let reverse = |line: &[[u32; 2]], _len: usize| -> Result<Vec<u32>, ()> {
        Ok(line.iter().map(|value| value[1] - 100).collect())
    };
    let mut storage: Vec<[u32; 2]> = vec![[1, 2], [3, 4], [0, 0], [0, 0]];
    assert!(convert_recast_forward(&forward, &mut storage, &plan, 2, 1, 4, &buffers, false).is_ok());
    assert_eq!(storage, vec![[1, 101], [2, 102], [3, 103], [4, 104]]);
    let result = convert_recast_reverse(&reverse, storage, &plan, 2, 1, 4, &buffers, false, true);
    assert_eq!(result.ok().map(|reals| reals[..4].to_vec()), Some(vec![1, 2, 3, 4]));
}

#[test]
fn endpoint_planes_become_real() {
    let axis = ReducedAxis {
        stride: 2,
        local_axis_len: 3,
        global_axis_start: 0,
        real_len: 4,
        complex_len: 3,
    };
    assert_eq!(axis.constrained_plane(0), Some(0));
    assert_eq!(axis.constrained_plane(1), Some(0));
    assert_eq!(axis.constrained_plane(2), None);
    assert_eq!(axis.constrained_plane(5), Some(1));
    let mut data: Vec<[u64; 2]> = (0..6).map(|value| [value, value + 10]).collect();
    zero_accepted_boundary(&axis, &mut data, 6, 1);
    assert_eq!(data, vec![[0, 0], [1, 0], [2, 12], [3, 13], [4, 0], [5, 0]]);
    let once = data.clone();
    assert_eq!(zero_mixed_boundary_data(4, 3, 6, 2, 1, &mut data), Ok(()));
    assert_eq!(data, once);
    assert_eq!(
        zero_mixed_boundary_data(4, 3, 5, 2, 1, &mut data),
        Err(MixedError::Fft(FftError::PreparationFailed))
    );
    assert_eq!(plane_count(4), 2);
    assert_eq!(plane_count(5), 1);
}

#[test]
fn odd_lines_have_one_endpoint() {
    let axis = ReducedAxis {
        stride: 1,
        local_axis_len: 3,
        global_axis_start: 0,
        real_len: 5,
        complex_len: 3,
    };
    let mut data: Vec<[u32; 2]> = vec![[1, 1], [2, 2], [3, 3]];
    zero_accepted_boundary(&axis, &mut data, 3, 1);
    assert_eq!(data, vec![[1, 0], [2, 2], [3, 3]]);
}

#[test]
fn tolerance_counts_powers_of_two() {
    assert_eq!(ceil_log2_len(0), 0);
    assert_eq!(ceil_log2_len(1), 0);
    assert_eq!(ceil_log2_len(2), 1);
    assert_eq!(ceil_log2_len(5), 3);
    assert_eq!(ceil_log2_len(8), 3);
    let all = AxisSelection { mask: [true, true, true] };
    assert_eq!(normalization_depth(&[8, 5, 100], &all, 2), 7);
    assert_eq!(transverse_extents(&[8, 5, 100], &all, 2), vec![8, 5]);
    let some = AxisSelection { mask: [false, true, true] };
    assert_eq!(normalization_depth(&[8, 5, 100], &some, 2), 4);
    assert_eq!(transverse_extents(&[8, 5, 100], &some, 2), vec![5]);
    let plan = LocalR2rPlan {
        line_len: 6,
        embedding_len: 24,
        scratch_len: 0,
        normalization_factor: 12,
    };
    let embedded = MixedR2cStageLocal::Complex(MixedComplexLocal::R2r(MixedR2rLocal::Transform(plan)));
    let fft = MixedR2cStageLocal::Complex(MixedComplexLocal::Fft(LocalC2cPlan {
        line_len: 7,
        scratch_len: 0,
    }));
    let term = DepthTerm { native_len: 24, factor: 12, allowance: 2 };
    assert_eq!(depth_term(&embedded), Some(term));
    let locals = vec![
        MixedR2cStageLocal::Real(MixedRealLocal::Rfft(LocalR2cPlan {
            real_len: 4,
            complex_len: 3,
            scratch_len: 0,
        })),
        embedded,
        MixedR2cStageLocal::Complex(MixedComplexLocal::Identity),
        fft,
    ];
    assert_eq!(
        mixed_endpoint_terms(&locals, 0),
        vec![term, DepthTerm { native_len: 7, factor: 7, allowance: 0 }]
    );
    assert_eq!(mixed_endpoint_depth(&mixed_endpoint_terms(&locals, 0)), 11);
    assert_eq!(mixed_endpoint_depth(&Vec::new()), 1);
}

fn works(steps: &[Step]) -> Vec<(Work, Slot, Slot)> {
    steps.iter().map(|step| (step.work, step.from, step.to)).collect()
}

#[test]
fn schedules_pass_every_stage() {
    let route = Itinerary { kind: RouteKind::RealToReal, stages: 3, boundary: 0 };
    let eager = vec![false, false];
    assert_eq!(
        works(&route.steps(Direction::Forward, Mode::OutOfPlace, &eager)),
        vec![
            (Work::Kernel(0), Slot::Source, Slot::Complex),
            (Work::Exchange(0), Slot::Complex, Slot::Complex),
            (Work::Kernel(1), Slot::Complex, Slot::Complex),
            (Work::Exchange(1), Slot::Complex, Slot::Complex),
            (Work::Kernel(2), Slot::Complex, Slot::Destination),
        ]
    );
    assert_eq!(
        works(&route.steps(Direction::Inverse, Mode::InPlace, &eager)),
        vec![
            (Work::Kernel(2), Slot::Complex, Slot::Complex),
            (Work::Exchange(1), Slot::Complex, Slot::Complex),
            (Work::Kernel(1), Slot::Complex, Slot::Complex),
            (Work::Exchange(0), Slot::Complex, Slot::Complex),
            (Work::Kernel(0), Slot::Complex, Slot::Complex),
        ]
    );
}

#[test]
fn reverse_schedules_check_endpoints_before_the_boundary() {
    let route = Itinerary { kind: RouteKind::MixedHalfComplex, stages: 3, boundary: 1 };
    let eager = vec![true, true];
    assert_eq!(
        works(&route.steps(Direction::Inverse, Mode::OutOfPlace, &eager)),
        vec![
            (Work::Kernel(2), Slot::Source, Slot::Complex),
            (Work::Exchange(1), Slot::Complex, Slot::Complex),
            (Work::Validate, Slot::Complex, Slot::Complex),
            (Work::Clear, Slot::Complex, Slot::Complex),
            (Work::Kernel(1), Slot::Complex, Slot::Real),
            (Work::Exchange(0), Slot::Real, Slot::Real),
            (Work::Kernel(0), Slot::Real, Slot::Destination),
        ]
    );
    let overlapped = route.steps(Direction::Inverse, Mode::Overlap, &eager);
    let joined: Vec<bool> = overlapped.iter().map(|step| step.joined).collect();
    assert_eq!(joined, vec![false, false, true, true, true, false, true, false]);
}

#[test]
fn local_stages_sweep_lines() {
    let placed = pencil([1, 2, 3], [0, 1, 2], 0);
    let plan = LocalR2rPlan {
        line_len: 2,
        embedding_len: 2,
        scratch_len: 0,
        normalization_factor: 2,
    };
    let reverse_line = |line: &[u64], _len: usize| -> Result<Vec<u64>, LocalR2rError> {
        Ok(line.chunks(2).flat_map(|pair| [pair[1], pair[0]]).collect())
    };
    let source = [1, 2, 3, 4, 5, 6];
    let mut destination = [0; 6];
    let mut line = vec![0; 2];
    let local = R2rLocal::Transform(plan);
    assert_eq!(
        execute_local(&local, &reverse_line, &placed, 1, &source, &mut destination, &mut line),
        Ok(())
    );
    assert_eq!(destination, [4, 5, 6, 1, 2, 3]);
    assert_eq!(
        execute_local_in_place(&local, &reverse_line, &placed, 1, &mut destination, &mut line),
        Ok(())
    );
    assert_eq!(destination, source);
    let mut short = vec![0; 1];
    assert_eq!(
        execute_local(&local, &reverse_line, &placed, 1, &source, &mut destination, &mut short),
        Err(R2rError::Fft(FftError::WorkspaceTooSmall {
            kind: "real line",
            required: 2,
            actual: 1,
        }))
    );
    let mut smaller = [0; 5];
    assert_eq!(
        execute_local(
            &R2rLocal::Identity,
            &reverse_line,
            &placed,
            1,
            &source,
            &mut smaller,
            &mut line
        ),
        Err(R2rError::Fft(FftError::PreparationFailed))
    );
}

#[test]
fn descriptors_hold_what_plans_share() {
    let layout = DistributedLayout { transpose_method: TransposeMethod::PointToPoint, permute_dims: false };
    let extra = ExtraShape::from_dimensions(vec![6]).unwrap();
    assert_eq!(
        build_descriptor(
            &[2],
            &[4, 5],
            &extra,
            &AxisSelection { mask: [true, false] },
            VALUE_KIND_R2C,
            8,
            layout,
        ),
        Some(vec![4, 5, 2, 1, 6, 2, 8, 1, 0, 1, 0])
    );
    assert_eq!(
        build_r2r_descriptor(
            &[2],
            &[4, 5],
            &ExtraShape::scalar(),
            &[Some(AxisR2rKind::Fftw(R2rKind::DctII)), None],
            3,
            4,
            layout,
        ),
        Some(vec![4, 5, 2, 0, 3, 4, 2, 0, 1, 0])
    );
    let facts = MixedDescriptorFacts {
        family: 2,
        scalar_bytes: 8,
        reduction_axis: 1,
        original_len: 5,
        layout,
    };
    let signs = FourierDirections([FourierDirection::Backward, FourierDirection::Forward]);
    let words = build_mixed_descriptor(
        &[2],
        &[4, 5],
        &[4, 3],
        &ExtraShape::scalar(),
        &[AxisTransform::Fft, AxisTransform::Rfft],
        &facts,
        &[0; 7],
        &signs,
    )
    .unwrap();
    assert_eq!(words[..5], [4, 5, 4, 3, 2]);
    assert_eq!(words[words.len() - 2..], [1, 0]);
    let header = mixed_header::<2, 1>(29, Some(words.len()));
    assert_eq!(header, [1, 29, 2, 1, words.len() as u64]);
    assert_eq!(mixed_header::<2, 1>(29, None)[4], u64::MAX);
    assert_eq!(mixed_c2c_operation(Direction::Forward, false), 30);
    assert_eq!(mixed_r2c_operation(Direction::Backward, true), 42);
}

#[test]
fn descriptors_are_written_where_there_is_room() {
    let layout = DistributedLayout { transpose_method: TransposeMethod::PointToPoint, permute_dims: false };
    let extra = ExtraShape::scalar();
    let selection = AxisSelection { mask: [true, false] };
    let kinds = [Some(AxisR2rKind::Fftw(R2rKind::DctII)), None];
    assert_eq!(
        write_descriptor(Some(vec![9]), &[2], &[4, 5], &extra, &selection, VALUE_KIND_R2C, 8, layout),
        Some(vec![9, 4, 5, 2, 0, 2, 8, 1, 0, 1, 0])
    );
    assert_eq!(write_descriptor(None, &[2], &[4, 5], &extra, &selection, VALUE_KIND_R2C, 8, layout), None);
    assert_eq!(
        write_r2r_descriptor(Some(vec![]), &[2], &[4, 5], &extra, &kinds, 3, 4, layout),
        Some(vec![4, 5, 2, 0, 3, 4, 2, 0, 1, 0])
    );
    assert_eq!(write_r2r_descriptor(None, &[2], &[4, 5], &extra, &kinds, 3, 4, layout), None);
    let facts = MixedDescriptorFacts {
        family: 2,
        scalar_bytes: 8,
        reduction_axis: 1,
        original_len: 5,
        layout,
    };
    let transforms = [AxisTransform::Fft, AxisTransform::Rfft];
    let shapes = ([4, 5], [4, 3]);
    let words =
        write_mixed_descriptor(Some(vec![]), &[2], &shapes.0, &shapes.1, &extra, &transforms, &facts);
    assert_eq!(words, Some(vec![4, 5, 4, 3, 2, 0, 2, 2, 8, 16, 1, 5, 1, 0, 1, 0, 2, 0]));
    let none = write_mixed_descriptor(None, &[2], &shapes.0, &shapes.1, &extra, &transforms, &facts);
    assert_eq!(none, None);
    let signs = FourierDirections([FourierDirection::Backward, FourierDirection::Forward]);
    assert_eq!(
        write_backend_words(Some(vec![9]), &[1, 2, 3, 4, 5, 6, 7], &signs),
        Some(vec![9, 1, 2, 3, 4, 5, 6, 7, 1, 0])
    );
    assert_eq!(write_backend_words(None, &[0; 7], &signs), None);
}

#[test]
fn errors_keep_their_reasons() {
    assert_eq!(
        map_overwrite(OverwriteError::Array(ArrayError::Poisoned)),
        MixedError::Fft(FftError::Array(ArrayError::Poisoned))
    );
    assert_eq!(map_overwrite(OverwriteError::Writer(MixedError::InvalidGraph)), MixedError::InvalidGraph);
    assert_eq!(
        map_overwrite_error(OverwriteError::Writer(R2rError::LocalR2r(LocalR2rError::InvalidLength))),
        R2rError::LocalR2r(LocalR2rError::InvalidLength)
    );
    assert!(matches!(
        map_mixed_overlap(OverlapError::PeerPanicked),
        FftOverlapError::Overlap(OverlapError::PeerPanicked)
    ));
    let mapped = map_r2c_overlap(OverlapError::Transpose(TransposeError::IncompatiblePencils));
    assert!(matches!(mapped, FftOverlapError::Operation(R2cError::Fft(FftError::Transpose(_))) | FftOverlapError::Overlap(_)));
}

#[test]
fn absurd_lengths_are_not_allocated() {
    assert_eq!(
        initialized_vec::<u64>(usize::MAX / 8, 0),
        Err(FftError::AllocationFailed { required: usize::MAX / 8 })
    );
    assert_eq!(initialized_vec(3, 7u8), Ok(vec![7, 7, 7]));
}

#[test]
fn steps_are_entered_under_their_stage() {
    let kernel = Step {
        work: Work::Kernel(1),
        from: Slot::Complex,
        to: Slot::Complex,
        timed: Some(1),
        agreed: false,
        joined: false,
    };
    let exchange = Step { work: Work::Exchange(1), ..kernel };
    let check = Step { work: Work::Validate, timed: None, ..kernel };
    let mut timing: TransformTiming<2> = TransformTiming::unmeasured();
    timing.record(&kernel, 7);
    timing.record(&exchange, 5);
    timing.record(&check, 100);
    timing.record(&kernel, 2);
    assert_eq!(timing.stages[0], StageTiming { fft: 0, fft_calls: 0, transpose: 0, total: 0 });
    assert_eq!(timing.stages[1], StageTiming { fft: 9, fft_calls: 2, transpose: 5, total: 14 });
    timing.record(&exchange, u64::MAX);
    assert_eq!(timing.stages[1].transpose, u64::MAX);
    assert_eq!(timing.stages[1].total, u64::MAX);
    assert_eq!(timing.total, 0);
    timing.record(&Step { timed: Some(2), ..kernel }, 1);
    assert_eq!(timing.stages[1].fft, 9);
}
