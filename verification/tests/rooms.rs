use pencil_fft::layout::TransposeMethod;
use pencil_fft::array::ManyPencilArray;
use pencil_fft::array::PencilArray;
use pencil_fft::error::ArrayError;
use pencil_fft::error::BackendInitError;
use pencil_fft::error::FftError;
use pencil_fft::error::LocalC2cError;
use pencil_fft::error::LocalR2cError;
use pencil_fft::error::LocalR2rError;
use pencil_fft::error::MixedError;
use pencil_fft::error::NativeError;
use pencil_fft::error::R2cError;
use pencil_fft::error::R2rError;
use pencil_fft::layout::AxisSelection;
use pencil_fft::layout::ExtraShape;
use pencil_fft::layout::Pencil;
use pencil_fft::local::AxisR2rKind;
use pencil_fft::local::AxisTransform;
use pencil_fft::local::BackendChoice;
use pencil_fft::local::LocalC2cPlan;
use pencil_fft::local::LocalR2cPlan;
use pencil_fft::local::LocalR2rPlan;
use pencil_fft::local::R2rKind;
use pencil_fft::mixed_build::MixedFacts;
use pencil_fft::mixed_c2c::MixedC2cCore;
use pencil_fft::mixed_c2c::MixedC2cRooms;
use pencil_fft::mixed_c2c_build::construct_mixed_c2c_in;
use pencil_fft::mixed_c2c_plan::MixedC2cPlan;
use pencil_fft::mixed_prepare::prepare_mixed_c2c_stages;
use pencil_fft::mixed_prepare::prepare_mixed_c2c_stages_in;
use pencil_fft::mixed_prepare::prepare_mixed_r2c_stages;
use pencil_fft::mixed_prepare::prepare_mixed_r2c_stages_in;
use pencil_fft::mixed_prepare::Planners;
use pencil_fft::mixed_r2c::MixedR2cCore;
use pencil_fft::mixed_r2c_alloc::MixedR2cRooms;
use pencil_fft::mixed_r2c_build::construct_mixed_r2c_in;
use pencil_fft::mixed_r2c_build::copy_stages_in;
use pencil_fft::mixed_r2c_plan::MixedR2cPlan;
use pencil_fft::prepare::prepare_r2c_stages;
use pencil_fft::prepare::prepare_r2c_stages_in;
use pencil_fft::prepare::prepare_r2r_stages;
use pencil_fft::prepare::prepare_r2r_stages_in;
use pencil_fft::prepare::RouteCandidate;
use pencil_fft::prepare::RoutePair;
use pencil_fft::r2c::TransformPlanCore;
use pencil_fft::r2c_alloc::R2cRooms;
use pencil_fft::r2c_build::construct_r2c_in;
use pencil_fft::r2c_build::join_dimensions;
use pencil_fft::r2c_build::join_dimensions_in;
use pencil_fft::r2c_build::R2cFacts;
use pencil_fft::r2c_build::R2cPlanners;
use pencil_fft::r2c_plan::R2cPlan;
use pencil_fft::r2r::R2rCore;
use pencil_fft::r2r::R2rRooms;
use pencil_fft::r2r_build::construct_core_in;
use pencil_fft::r2r_build::R2rFacts;
use pencil_fft::r2r_plan::R2rPlan;
use pencil_fft::registry::registered_real_stage_pencils_in;
use pencil_fft::registry::registered_stage_pencils_in;
use pencil_fft::registry::Stage;
use pencil_fft::rooms::Rooms;
use pencil_fft::scalar::FftReal;
use pencil_fft::scalar::R2rScalar;
use pencil_fft::shared::allocate_shared_in;
use pencil_fft::transition::ExchangeKind;
use pencil_fft::transition::Transition;
use pencil_fft::transition::TransitionPlan;
use pencil_fft::words::PlanFamily;
use pencil_fft::workspace::initialized_vec_in;
use pencil_fft::workspace::TransposeWorkspace;
use pencil_fft::world::World;

type Layout = Pencil<2, 1>;

fn place(shape: [usize; 2], distributed: usize) -> Layout {
    let id = (shape[0] * 100 + shape[1] * 10 + distributed) as u64;
    Pencil::from_parts(id, 1, shape, [distributed], [0, 1], shape).unwrap()
}

fn own_header(_words: [u64; 5]) -> bool {
    true
}

fn own_descriptor(words: Option<Vec<u64>>, _len: Option<usize>) -> Result<Vec<u64>, FftError> {
    words.ok_or(FftError::CollectivePreconditionFailed)
}

fn alone(valid: bool) -> bool {
    valid
}

fn own_pencil(shape: [usize; 2]) -> Result<Layout, FftError> {
    Ok(place(shape, 0))
}

fn own_route(_input: Layout, shape: [usize; 2], _permute: bool) -> Result<RouteCandidate<2, 1>, FftError> {
    Ok(RouteCandidate { stages: vec![place(shape, 0), place(shape, 1)], distributed: vec![0] })
}

fn own_transitions(
    stages: &Vec<Stage<2, 1>>,
    _distributed: &Vec<usize>,
    extra: &ExtraShape,
    method: TransposeMethod,
    _boundary: usize,
) -> Result<TransitionPlan, FftError> {
    let kind = match method {
        TransposeMethod::AllToAllv => ExchangeKind::Local,
        TransposeMethod::PointToPoint => ExchangeKind::PointToPoint,
    };
    let joined = Transition { forward: kind, backward: kind };
    Ok(TransitionPlan {
        transitions: vec![joined; stages.len() - 1],
        send_len: extra.element_count - 1,
        receive_len: 0,
        real_send_len: 0,
        real_receive_len: 0,
    })
}

type Alone = World<
    fn([u64; 5]) -> bool,
    fn(Option<Vec<u64>>, Option<usize>) -> Result<Vec<u64>, FftError>,
    fn(bool) -> bool,
    fn([usize; 2]) -> Result<Layout, FftError>,
    fn(Layout, [usize; 2], bool) -> Result<RouteCandidate<2, 1>, FftError>,
    fn(&Vec<Stage<2, 1>>, &Vec<usize>, &ExtraShape, TransposeMethod, usize) -> Result<TransitionPlan, FftError>,
>;

fn one_process() -> Alone {
    World {
        header: own_header,
        descriptor: own_descriptor,
        agree: alone,
        pencil: own_pencil,
        route: own_route,
        transitions: own_transitions,
    }
}

fn granted() -> Rooms<2, 1> {
    Rooms {
        words: Some(Vec::new()),
        stages: Some(Vec::new()),
        copies: Some(Vec::new()),
        dimensions: Some(Vec::new()),
        real_pencils: Some(Vec::new()),
        complex_pencils: Some(Vec::new()),
    }
}

fn c2c_lens(n: usize) -> LocalC2cPlan {
    LocalC2cPlan { line_len: n, scratch_len: n }
}

fn r2r_lens(n: usize) -> LocalR2rPlan {
    LocalR2rPlan { line_len: n, embedding_len: n, scratch_len: n, normalization_factor: n }
}

fn r2c_lens(n: usize) -> LocalR2cPlan {
    LocalR2cPlan { real_len: n, complex_len: n / 2 + 1, scratch_len: n }
}

fn plan_c2c(_backend: BackendChoice, n: usize, _backward: bool) -> Result<LocalC2cPlan, BackendInitError<LocalC2cError>> {
    Ok(c2c_lens(n))
}

fn plan_r2r(_backend: BackendChoice, _kind: AxisR2rKind, n: usize) -> Result<LocalR2rPlan, BackendInitError<LocalR2rError>> {
    Ok(r2r_lens(n))
}

fn plan_r2c(_backend: BackendChoice, n: usize) -> Result<LocalR2cPlan, BackendInitError<LocalR2cError>> {
    Ok(r2c_lens(n))
}

fn no_c2c(_backend: BackendChoice, _n: usize, _backward: bool) -> Result<LocalC2cPlan, BackendInitError<LocalC2cError>> {
    Err(BackendInitError::Native(NativeError::PlanningFailed))
}

fn half_planned(n: usize) -> Result<LocalC2cPlan, LocalC2cError> {
    Ok(c2c_lens(n))
}

fn boundary_planned(n: usize) -> Result<LocalR2cPlan, LocalR2cError> {
    Ok(r2c_lens(n))
}

fn depth_of(depth: u64, extents: &Vec<usize>) -> Result<u64, FftError> {
    Ok(depth + extents.len() as u64)
}

fn terms_of(terms: &Vec<pencil_fft::boundary::DepthTerm>) -> Result<u64, FftError> {
    Ok(terms.len() as u64)
}

fn out_of_room(required: usize) -> FftError {
    FftError::AllocationFailed { required }
}

fn stages() -> Vec<Stage<2, 1>> {
    let shape = [4, 6];
    vec![
        Stage { axis: 1, input: place(shape, 0), output: place(shape, 0) },
        Stage { axis: 0, input: place(shape, 1), output: place(shape, 1) },
    ]
}

#[test]
fn registries_need_room() {
    let found = registered_stage_pencils_in(Some(Vec::new()), &stages(), 0).unwrap();
    assert_eq!(found.len(), 2);
    assert_eq!(found[1].decomposition, [1]);
    assert_eq!(registered_stage_pencils_in(None, &stages(), 0).map(|list| list.len()), Err(out_of_room(2)));
    let reals = registered_real_stage_pencils_in(Some(Vec::new()), &stages(), 0).unwrap();
    assert_eq!(reals.len(), 1);
    assert_eq!(
        registered_real_stage_pencils_in(None, &stages(), 1).map(|list| list.len()),
        Err(out_of_room(2))
    );
}

#[test]
fn lists_are_joined_and_copied_where_there_is_room() {
    assert_eq!(join_dimensions_in(Some(Vec::new()), &vec![7, 8], &vec![5, 6], 1), Ok(vec![7, 6]));
    assert_eq!(join_dimensions(&vec![7, 8], &vec![5, 6], 1), Ok(vec![7, 6]));
    assert_eq!(join_dimensions_in(None, &vec![7, 8], &vec![5, 6], 1), Err(out_of_room(2)));
    let copies = copy_stages_in(Some(Vec::new()), &stages()).unwrap();
    assert_eq!((copies[0].axis, copies[1].axis), (1, 0));
    assert_eq!(copies[1].output.id, stages()[1].output.id);
    assert_eq!(copy_stages_in(None, &stages()).map(|list| list.len()), Err(out_of_room(2)));
}

#[test]
fn stages_are_prepared_where_there_is_room() {
    let shape = [4, 6];
    let route = own_route(place(shape, 0), shape, false).unwrap();
    let planner = |_kind: AxisR2rKind, n: usize| -> Result<LocalR2rPlan, LocalR2rError> { Ok(r2r_lens(n)) };
    let kinds = [Some(AxisR2rKind::Dht), None];
    let prepared = prepare_r2r_stages_in(Some(Vec::new()), &planner, &route, &shape, &kinds).unwrap();
    assert_eq!(prepared.stages.len(), 2);
    assert_eq!(prepare_r2r_stages(&planner, &route, &shape, &kinds).map(|made| made.stages.len()), Ok(2));
    assert_eq!(
        prepare_r2r_stages_in(None, &planner, &route, &shape, &kinds).map(|made| made.stages.len()),
        Err(R2rError::Fft(out_of_room(2)))
    );
    let refusing = |_kind: AxisR2rKind, _n: usize| -> Result<LocalR2rPlan, LocalR2rError> {
        Err(LocalR2rError::NonIntegralBatch)
    };
    assert_eq!(
        prepare_r2r_stages_in(Some(Vec::new()), &refusing, &route, &shape, &kinds)
            .map(|made| made.stages.len()),
        Err(R2rError::LocalR2r(LocalR2rError::NonIntegralBatch))
    );

    let routes = RoutePair {
        original_route: own_route(place(shape, 0), shape, false).unwrap(),
        reduced_route: own_route(place([4, 4], 0), [4, 4], false).unwrap(),
        original_shape: shape,
        reduced_shape: [4, 4],
    };
    let selection = AxisSelection { mask: [true, true] };
    let prepared =
        prepare_r2c_stages_in(Some(Vec::new()), &half_planned, &boundary_planned, &routes, 1, &selection)
            .unwrap();
    assert_eq!(prepared.stages.len(), 2);
    assert_eq!(
        prepare_r2c_stages(&half_planned, &boundary_planned, &routes, 1, &selection)
            .map(|made| made.stages.len()),
        Ok(2)
    );
    assert_eq!(
        prepare_r2c_stages_in(None, &half_planned, &boundary_planned, &routes, 1, &selection)
            .map(|made| made.stages.len()),
        Err(R2cError::Fft(out_of_room(2)))
    );

    let planners = Planners { c2c: plan_c2c, r2r: plan_r2r, r2c: plan_r2c };
    let ask = MixedC2cPlan::<u64, 2, 1>::from_shape(
        shape,
        ExtraShape::scalar(),
        [AxisTransform::Fft, AxisTransform::Fft],
    );
    let graph = ask.transform.graph;
    assert!(prepare_mixed_c2c_stages_in(Some(Vec::new()), &planners, &route, &shape, &graph).is_ok());
    assert!(prepare_mixed_c2c_stages(&planners, &route, &shape, &graph).is_ok());
    assert_eq!(
        prepare_mixed_c2c_stages_in(None, &planners, &route, &shape, &graph).map(|made| made.stages.len()),
        Err(BackendInitError::Local(MixedError::Fft(out_of_room(2))))
    );
    let ask = MixedR2cPlan::<u64, 2, 1>::from_shape(
        shape,
        ExtraShape::scalar(),
        [AxisTransform::Fft, AxisTransform::Rfft],
    );
    let graph = ask.transform.graph;
    assert!(prepare_mixed_r2c_stages_in(Some(Vec::new()), &planners, &routes, &graph, 0).is_ok());
    assert!(prepare_mixed_r2c_stages(&planners, &routes, &graph, 0).is_ok());
    assert_eq!(
        prepare_mixed_r2c_stages_in(None, &planners, &routes, &graph, 0).map(|made| made.stages.len()),
        Err(BackendInitError::Local(MixedError::Fft(out_of_room(2))))
    );
}

fn build_r2r(rooms: Rooms<2, 1>) -> Result<usize, R2rError> {
    r2r_core(rooms).map(|core| core.stages.len())
}

fn r2r_core(rooms: Rooms<2, 1>) -> Result<R2rCore<2, 1>, R2rError> {
    let planner = |_kind: AxisR2rKind, n: usize| -> Result<LocalR2rPlan, LocalR2rError> { Ok(r2r_lens(n)) };
    let request = R2rPlan::<u64, 2, 1>::from_shape(
        [2, 5],
        ExtraShape::scalar(),
        [Some(R2rKind::DctII), Some(R2rKind::DstIV)],
    );
    let facts = R2rFacts {
        id: 3,
        family: PlanFamily::R2r,
        process_grid: [1],
        value_kind: <u64 as R2rScalar>::value_kind(),
        scalar_bytes: <u64 as FftReal>::scalar_bytes(),
        axis_kinds: [
            Some(AxisR2rKind::Fftw(R2rKind::DctII)),
            Some(AxisR2rKind::Fftw(R2rKind::DstIV)),
        ],
    };
    construct_core_in(rooms, &one_process(), &planner, &facts, request)
}

#[test]
fn real_plans_are_owed_where_there_is_room() {
    assert_eq!(build_r2r(granted()), Ok(2));
    assert_eq!(
        build_r2r(Rooms { words: None, ..granted() }),
        Err(R2rError::Fft(FftError::CollectivePreconditionFailed))
    );
    assert_eq!(build_r2r(Rooms { stages: None, ..granted() }), Err(R2rError::Fft(out_of_room(2))));
}

fn build_r2c(rooms: Rooms<2, 1>) -> Result<usize, R2cError> {
    r2c_core(rooms).map(|core| core.stages.len())
}

fn r2c_core(rooms: Rooms<2, 1>) -> Result<TransformPlanCore<2, 1>, R2cError> {
    let planners = R2cPlanners { c2c: half_planned, r2c: boundary_planned, threshold: depth_of };
    let request = R2cPlan::<u64, 2, 1>::from_shape([2, 5], ExtraShape::scalar());
    let facts = R2cFacts { id: 4, process_grid: [1], scalar_bytes: <u64 as FftReal>::scalar_bytes() };
    construct_r2c_in(rooms, &one_process(), &planners, &facts, request)
}

#[test]
fn half_complex_plans_are_owed_where_there_is_room() {
    assert_eq!(build_r2c(granted()), Ok(2));
    assert_eq!(
        build_r2c(Rooms { words: None, ..granted() }),
        Err(R2cError::Fft(FftError::CollectivePreconditionFailed))
    );
    assert_eq!(build_r2c(Rooms { stages: None, ..granted() }), Err(R2cError::Fft(out_of_room(2))));
    assert_eq!(build_r2c(Rooms { dimensions: None, ..granted() }), Err(R2cError::Fft(out_of_room(1))));
}

fn mixed_facts() -> MixedFacts<1> {
    MixedFacts {
        id: 5,
        process_grid: [1],
        scalar_bytes: <u64 as FftReal>::scalar_bytes(),
        backend_words: [0; 7],
    }
}

fn build_mixed_c2c(rooms: Rooms<2, 1>, native: bool) -> Result<usize, BackendInitError<MixedError>> {
    mixed_c2c_core(rooms, native).map(|core| core.stages.len())
}

fn mixed_c2c_core(
    rooms: Rooms<2, 1>,
    native: bool,
) -> Result<MixedC2cCore<2, 1>, BackendInitError<MixedError>> {
    let request = MixedC2cPlan::<u64, 2, 1>::from_shape(
        [2, 5],
        ExtraShape::scalar(),
        [AxisTransform::Fft, AxisTransform::R2r(AxisR2rKind::Dht)],
    );
    if native {
        let planners = Planners { c2c: plan_c2c, r2r: plan_r2r, r2c: plan_r2c };
        construct_mixed_c2c_in(rooms, &one_process(), &planners, &mixed_facts(), request)
    } else {
        let planners = Planners { c2c: no_c2c, r2r: plan_r2r, r2c: plan_r2c };
        construct_mixed_c2c_in(rooms, &one_process(), &planners, &mixed_facts(), request)
    }
}

#[test]
fn mixed_complex_plans_are_owed_where_there_is_room() {
    assert_eq!(build_mixed_c2c(granted(), true), Ok(2));
    assert_eq!(
        build_mixed_c2c(granted(), false),
        Err(BackendInitError::Native(NativeError::PlanningFailed))
    );
    assert_eq!(
        build_mixed_c2c(Rooms { words: None, ..granted() }, true),
        Err(BackendInitError::Local(MixedError::Fft(FftError::CollectivePreconditionFailed)))
    );
    assert_eq!(
        build_mixed_c2c(Rooms { stages: None, ..granted() }, true),
        Err(BackendInitError::Local(MixedError::Fft(out_of_room(2))))
    );
    assert_eq!(
        build_mixed_c2c(Rooms { complex_pencils: None, ..granted() }, true),
        Err(BackendInitError::Local(MixedError::Fft(out_of_room(2))))
    );
}

fn build_mixed_r2c(rooms: Rooms<2, 1>) -> Result<usize, BackendInitError<MixedError>> {
    mixed_r2c_core(rooms).map(|core| core.stages.len())
}

fn mixed_r2c_core(rooms: Rooms<2, 1>) -> Result<MixedR2cCore<2, 1>, BackendInitError<MixedError>> {
    let request = MixedR2cPlan::<u64, 2, 1>::from_shape(
        [2, 5],
        ExtraShape::scalar(),
        [AxisTransform::Fft, AxisTransform::Rfft],
    );
    let planners = Planners { c2c: plan_c2c, r2r: plan_r2r, r2c: plan_r2c };
    construct_mixed_r2c_in(rooms, &one_process(), &planners, &terms_of, &mixed_facts(), request)
}

#[test]
fn mixed_half_complex_plans_are_owed_where_there_is_room() {
    assert_eq!(build_mixed_r2c(granted()), Ok(2));
    let local = |error: FftError| Err(BackendInitError::Local(MixedError::Fft(error)));
    assert_eq!(
        build_mixed_r2c(Rooms { words: None, ..granted() }),
        local(FftError::CollectivePreconditionFailed)
    );
    assert_eq!(build_mixed_r2c(Rooms { stages: None, ..granted() }), local(out_of_room(2)));
    assert_eq!(build_mixed_r2c(Rooms { dimensions: None, ..granted() }), local(out_of_room(1)));
    assert_eq!(build_mixed_r2c(Rooms { copies: None, ..granted() }), local(out_of_room(2)));
}

#[test]
fn arrays_are_filled_where_there_is_room() {
    let layout = place([2, 3], 0);
    let extra = ExtraShape::scalar();
    let array = PencilArray::from_elem_in(Some(Vec::new()), &layout, &extra, 9u64).unwrap();
    assert_eq!(array.data, vec![9; 6]);
    assert_eq!(
        PencilArray::<u64, 2, 1>::from_elem_in(None, &layout, &extra, 9).map(|array| array.data),
        Err(out_of_room(6))
    );
    let layouts = vec![layout, place([2, 4], 1)];
    let array = ManyPencilArray::from_elem_in(Some(Vec::new()), &layouts, &extra, 9u64).unwrap();
    assert_eq!((array.storage, array.active), (vec![9; 8], Some(0)));
    assert_eq!(
        ManyPencilArray::<u64, 2, 1>::from_elem_in(None, &layouts, &extra, 9).map(|array| array.storage),
        Err(out_of_room(8))
    );
    assert_eq!(
        ManyPencilArray::<u64, 2, 1>::from_elem_in(Some(Vec::new()), &Vec::new(), &extra, 9)
            .map(|array| array.storage),
        Err(FftError::Array(ArrayError::IncompatiblePencils))
    );
    assert_eq!(initialized_vec_in(Some(Vec::new()), 2, 5u8), Ok(vec![5, 5]));
    assert_eq!(initialized_vec_in::<u8>(None, 2, 5), Err(out_of_room(2)));
    let buffers = TransposeWorkspace::allocate_in(Some(Vec::new()), Some(Vec::new()), 1, 2, 5u8).unwrap();
    assert_eq!((buffers.send, buffers.receive), (vec![5], vec![5, 5]));
    assert_eq!(
        TransposeWorkspace::<u8>::allocate_in(Some(Vec::new()), None, 1, 2, 5).map(|made| made.send),
        Err(out_of_room(2))
    );
    assert_eq!(
        TransposeWorkspace::<u8>::allocate_in(None, None, 1, 2, 5).map(|made| made.send),
        Err(out_of_room(1))
    );
}

fn empty<T>() -> Option<Vec<T>> {
    Some(Vec::new())
}

#[test]
fn buffers_are_filled_where_there_is_room() {
    let core = r2r_core(granted()).unwrap();
    let rooms = || R2rRooms::<u64> {
        send: empty(),
        receive: empty(),
        embedding: empty(),
        scratch: empty(),
        line: empty(),
    };
    let made = core.allocate_in_place_workspace_in(rooms()).unwrap();
    assert_eq!(made.embedding_line.len(), 5);
    let refused = core.allocate_in_place_workspace_in(R2rRooms { embedding: None, line: None, ..rooms() });
    assert_eq!(refused.map(|made| made.core), Err(R2rError::Fft(out_of_room(5))));

    let core = mixed_c2c_core(granted(), true).unwrap();
    let rooms = || MixedC2cRooms::<u64> {
        send: empty(),
        receive: empty(),
        embedding: empty(),
        scratch: empty(),
        line: empty(),
    };
    let made = core.allocate_buffers_in(rooms()).unwrap();
    assert_eq!(made.line_buffer.len(), core.strided_line_len);
    let refused = core.allocate_buffers_in(MixedC2cRooms { line: None, ..rooms() });
    assert_eq!(
        refused.map(|made| made.core),
        Err(MixedError::Fft(out_of_room(core.strided_line_len)))
    );

    let core = r2c_core(granted()).unwrap();
    let rooms = || R2cRooms::<u64> {
        real_send: None,
        real_receive: None,
        send: empty(),
        receive: empty(),
        scratch: empty(),
        real_source: empty(),
        real_line: empty(),
        complex_source: empty(),
        complex_line: empty(),
        strided_line: empty(),
    };
    let made = core.allocate_buffers_in(rooms()).unwrap();
    assert_eq!((made.real_line.len(), made.complex_line.len()), (5, 3));
    assert!(made.real_transpose.is_none());
    let refused = core.allocate_buffers_in(R2cRooms { complex_source: None, ..rooms() });
    assert_eq!(refused.map(|made| made.core), Err(R2cError::Fft(out_of_room(3))));

    let core = mixed_r2c_core(granted()).unwrap();
    let rooms = || MixedR2cRooms::<u64> {
        real_send: None,
        real_receive: None,
        send: empty(),
        receive: empty(),
        embedding: empty(),
        scratch: empty(),
        real_source: empty(),
        real_line: empty(),
        complex_source: empty(),
        complex_line: empty(),
        real_strided: empty(),
        complex_strided: empty(),
    };
    let made = core.allocate_buffers_in(rooms()).unwrap();
    assert_eq!((made.real_source_line.len(), made.complex_source_line.len()), (5, 3));
    let refused = core.allocate_buffers_in(MixedR2cRooms { real_source: None, ..rooms() });
    assert_eq!(refused.map(|made| made.real_line), Err(MixedError::Fft(out_of_room(5))));
}

#[test]
fn shared_allocations_need_room() {
    let shape = [4, 6];
    let boundary = vec![
        Stage { axis: 1, input: place(shape, 0), output: place([4, 4], 0) },
        Stage { axis: 0, input: place([4, 4], 1), output: place([4, 4], 1) },
    ];
    let reals = vec![place(shape, 0)];
    let complexes = vec![place([4, 4], 0), place([4, 4], 1)];
    let extra = ExtraShape::scalar();
    let made = allocate_shared_in::<u64, 2, 1>(
        Some(Vec::new()),
        &boundary,
        0,
        &extra,
        reals.clone(),
        complexes.clone(),
    )
    .unwrap();
    assert_eq!((made.real_storage_len, made.complex_storage_len), (24, 16));
    let refused = allocate_shared_in::<u64, 2, 1>(None, &boundary, 0, &extra, reals, complexes);
    assert_eq!(refused.map(|shared| shared.real_storage_len), Err(out_of_room(16)));
}
