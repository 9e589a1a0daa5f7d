use std::cell::Cell;

use pencil_fft::transition::moves_by;
use pencil_fft::transition::Passage;
use pencil_fft::array::ManyPencilArray;
use pencil_fft::array::PencilArray;
use pencil_fft::carrier::Load;
use pencil_fft::choice::Ways;
use pencil_fft::choice::WaysHome;
use pencil_fft::convert::convert_complex_to_real;
use pencil_fft::convert::convert_complex_to_real_in;
use pencil_fft::convert::convert_real_to_complex;
use pencil_fft::convert::convert_real_to_complex_in;
use pencil_fft::crew::InTurn;
use pencil_fft::crew::Overlapped;
use pencil_fft::crew_mixed_c2c::MixedC2cCrew;
use pencil_fft::crew_mixed_c2c::MixedC2cInPlaceCrew;
use pencil_fft::crew_mixed_c2c::MixedC2cOverlapCrew;
use pencil_fft::crew_mixed_r2c::MixedR2cForwardCrew;
use pencil_fft::crew_mixed_r2c::MixedR2cForwardOverlapCrew;
use pencil_fft::crew_mixed_r2c::MixedR2cReverseCrew;
use pencil_fft::crew_mixed_r2c::MixedR2cReverseOverlapCrew;
use pencil_fft::crew_mixed_r2c_ip::MixedR2cInPlaceForwardCrew;
use pencil_fft::crew_mixed_r2c_ip::MixedR2cInPlaceReverseCrew;
use pencil_fft::crew_r2c::R2cForwardCrew;
use pencil_fft::crew_r2c::R2cForwardOverlapCrew;
use pencil_fft::crew_r2c::R2cReverseCrew;
use pencil_fft::crew_r2c::R2cReverseOverlapCrew;
use pencil_fft::crew_r2c_ip::R2cInPlaceForwardCrew;
use pencil_fft::crew_r2c_ip::R2cInPlaceReverseCrew;
use pencil_fft::crew_r2r::R2rCrew;
use pencil_fft::crew_r2r::R2rInPlaceCrew;
use pencil_fft::dht_plan::DhtPlan;
use pencil_fft::error::ArrayError;
use pencil_fft::error::BackendInitError;
use pencil_fft::error::FftError;
use pencil_fft::error::FftOverlapError;
use pencil_fft::error::LocalC2cError;
use pencil_fft::error::LocalR2cError;
use pencil_fft::error::LocalR2rError;
use pencil_fft::error::MixedError;
use pencil_fft::error::OverlapError;
use pencil_fft::error::R2cError;
use pencil_fft::error::R2rError;
use pencil_fft::handoff::HalfComplexStorage;
use pencil_fft::handoff::LineBuffers;
use pencil_fft::inspect::HalfInspector;
use pencil_fft::inspect::MixedInspector;
use pencil_fft::layout::AxisSelection;
use pencil_fft::layout::C2cState;
use pencil_fft::layout::Direction;
use pencil_fft::layout::DistributedLayout;
use pencil_fft::layout::ExtraShape;
use pencil_fft::layout::FourierDirection;
use pencil_fft::layout::FourierDirections;
use pencil_fft::layout::Pencil;
use pencil_fft::layout::R2cState;
use pencil_fft::layout::R2rState;
use pencil_fft::layout::TransposeMethod;
use pencil_fft::local::AxisR2rKind;
use pencil_fft::local::AxisTransform;
use pencil_fft::local::BackendChoice;
use pencil_fft::local::BackendKind;
use pencil_fft::local::LocalC2cPlan;
use pencil_fft::local::LocalR2cPlan;
use pencil_fft::local::LocalR2rPlan;
use pencil_fft::local::R2rKind;
use pencil_fft::mixed_c2c_plan::MixedC2cPlan;
use pencil_fft::mixed_convert::mixed_convert_complex_to_real;
use pencil_fft::mixed_convert::mixed_convert_complex_to_real_in;
use pencil_fft::mixed_convert::mixed_convert_real_to_complex;
use pencil_fft::mixed_convert::mixed_convert_real_to_complex_in;
use pencil_fft::mixed_prepare::Planners;
use pencil_fft::mixed_r2c_plan::MixedR2cPlan;
use pencil_fft::prepare::RouteCandidate;
use pencil_fft::r2c_build::R2cPlanners;
use pencil_fft::r2c_plan::R2cPlan;
use pencil_fft::r2r_plan::R2rPlan;
use pencil_fft::registry::Stage;
use pencil_fft::request::PlanRequest;
use pencil_fft::run::execute;
use pencil_fft::run::execute_in_place;
use pencil_fft::run::execute_overlapped;
use pencil_fft::spectrum::validate_boundary;
use pencil_fft::spectrum::Gauge;
use pencil_fft::stages::LocalError;
use pencil_fft::shared::capacity_bytes_of;
use pencil_fft::transition::ExchangeKind;
use pencil_fft::transition::Transition;
use pencil_fft::transition::TransitionPlan;
use pencil_fft::world::World;
use pencil_fft::words::PlanFamily;

type Layout = Pencil<2, 1>;
type Value = [u64; 2];

fn bits_of(value: f64) -> u64 {
    value.to_bits()
}

fn number(bits: u64) -> f64 {
    f64::from_bits(bits)
}

fn pair(re: f64, im: f64) -> Value {
    [bits_of(re), bits_of(im)]
}

fn close(left: f64, right: f64) -> bool {
    (left - right).abs() < 1e-9
}

fn all_close(left: &[Value], right: &[Value]) -> bool {
    left.len() == right.len()
        && left
            .iter()
            .zip(right)
            .all(|(a, b)| close(number(a[0]), number(b[0])) && close(number(a[1]), number(b[1])))
}

fn reals_close(left: &[u64], right: &[u64]) -> bool {
    left.len() == right.len() && left.iter().zip(right).all(|(a, b)| close(number(*a), number(*b)))
}

fn dft(line: &[Value], n: usize, sign: f64, scale: f64) -> Vec<Value> {
    let mut result = Vec::new();
    for chunk in line.chunks(n) {
        for k in 0..n {
            let mut re = 0.0;
            let mut im = 0.0;
            for (j, value) in chunk.iter().enumerate() {
                let angle = sign * 2.0 * std::f64::consts::PI * (j * k % n) as f64 / n as f64;
                let (x, y) = (number(value[0]), number(value[1]));
                re += x * angle.cos() - y * angle.sin();
                im += x * angle.sin() + y * angle.cos();
            }
            result.push(pair(re * scale, im * scale));
        }
    }
    result
}

fn hartley(line: &[u64], n: usize, scale: f64) -> Vec<u64> {
    let mut result = Vec::new();
    for chunk in line.chunks(n) {
        for k in 0..n {
            let mut sum = 0.0;
            for (j, value) in chunk.iter().enumerate() {
                let angle = 2.0 * std::f64::consts::PI * (j * k % n) as f64 / n as f64;
                sum += number(*value) * (angle.cos() + angle.sin());
            }
            result.push(bits_of(sum * scale));
        }
    }
    result
}

fn half_forward(line: &[u64], n: usize) -> Vec<Value> {
    let mut result = Vec::new();
    for chunk in line.chunks(n) {
        let full: Vec<Value> = chunk.iter().map(|value| [*value, bits_of(0.0)]).collect();
        result.extend_from_slice(&dft(&full, n, -1.0, 1.0)[..n / 2 + 1]);
    }
    result
}

fn times(factor: f64, data: &[u64]) -> Vec<u64> {
    data.iter().map(|bits| bits_of(factor * number(*bits))).collect()
}

fn half_reverse(line: &[Value], n: usize) -> Vec<u64> {
    scaled_half_reverse(line, n, 1.0 / n as f64)
}

fn scaled_half_reverse(line: &[Value], n: usize, scale: f64) -> Vec<u64> {
    let mut result = Vec::new();
    for chunk in line.chunks(n / 2 + 1) {
        let mut full: Vec<Value> = chunk.to_vec();
        for k in n / 2 + 1..n {
            let mirrored = chunk[n - k];
            full.push(pair(number(mirrored[0]), -number(mirrored[1])));
        }
        result.extend(dft(&full, n, 1.0, scale).iter().map(|value| value[0]));
    }
    result
}

fn place(shape: [usize; 2], distributed: usize) -> Layout {
    Pencil::from_parts(
        (shape[0] * 100 + shape[1] * 10 + distributed) as u64,
        1,
        shape,
        [distributed],
        [0, 1],
        shape,
    )
    .unwrap()
}

fn own_header(_words: [u64; 5]) -> bool {
    true
}

fn own_descriptor(words: Option<Vec<u64>>, _len: Option<usize>) -> Result<Vec<u64>, FftError> {
    words.ok_or(FftError::CollectiveDescriptorMismatch)
}

fn alone(valid: bool) -> bool {
    valid
}

fn own_pencil(shape: [usize; 2]) -> Result<Layout, FftError> {
    Ok(place(shape, 0))
}

fn own_route(
    _input: Layout,
    shape: [usize; 2],
    _permute: bool,
) -> Result<RouteCandidate<2, 1>, FftError> {
    Ok(RouteCandidate { stages: vec![place(shape, 0), place(shape, 1)], distributed: vec![0] })
}

fn own_transitions(
    stages: &Vec<Stage<2, 1>>,
    _distributed: &Vec<usize>,
    extra: &ExtraShape,
    method: TransposeMethod,
    _boundary: usize,
) -> Result<TransitionPlan, FftError> {
    let kind = match method {
        TransposeMethod::AllToAllv => ExchangeKind::Local,
        TransposeMethod::PointToPoint => ExchangeKind::PointToPoint,
    };
    let joined = Transition { forward: kind, backward: kind };
    Ok(TransitionPlan {
        transitions: vec![joined; stages.len() - 1],
        send_len: extra.element_count - 1,
        receive_len: 0,
        real_send_len: 0,
        real_receive_len: 0,
    })
}

type Alone = World<
    fn([u64; 5]) -> bool,
    fn(Option<Vec<u64>>, Option<usize>) -> Result<Vec<u64>, FftError>,
    fn(bool) -> bool,
    fn([usize; 2]) -> Result<Layout, FftError>,
    fn(Layout, [usize; 2], bool) -> Result<RouteCandidate<2, 1>, FftError>,
    fn(&Vec<Stage<2, 1>>, &Vec<usize>, &ExtraShape, TransposeMethod, usize) -> Result<TransitionPlan, FftError>,
>;

fn plain_words(backend: BackendChoice) -> [u64; 7] {
    match backend {
        BackendChoice::RustFft => [0; 7],
        BackendChoice::Fftw(_) => [1; 7],
    }
}

fn one_process() -> Alone {
    World {
        header: own_header,
        descriptor: own_descriptor,
        agree: alone,
        pencil: own_pencil,
        route: own_route,
        transitions: own_transitions,
    }
}

fn same_plan(_operation: u64, _words: &Vec<u64>) -> Result<(), FftError> {
    Ok(())
}

fn plan_c2c(_backend: BackendChoice, n: usize, _backward: bool) -> Result<LocalC2cPlan, BackendInitError<LocalC2cError>> {
    Ok(LocalC2cPlan { line_len: n, scratch_len: n })
}

fn plan_r2r(_backend: BackendChoice, _kind: AxisR2rKind, n: usize) -> Result<LocalR2rPlan, BackendInitError<LocalR2rError>> {
    Ok(LocalR2rPlan { line_len: n, embedding_len: n, scratch_len: n, normalization_factor: n })
}

fn plan_r2c(_backend: BackendChoice, n: usize) -> Result<LocalR2cPlan, BackendInitError<LocalR2cError>> {
    Ok(LocalR2cPlan { real_len: n, complex_len: n / 2 + 1, scratch_len: n })
}

fn exchange<T>(array: &mut ManyPencilArray<T, 2, 1>, to: &Layout) {
    let index = array.pencils.iter().position(|pencil| pencil.same_layout(to)).unwrap();
    array.active = Some(index);
}

fn mixed_c2c(shape: [usize; 2], transforms: [AxisTransform; 2]) -> Result<MixedC2cPlan<u64, 2, 1>, MixedError> {
    let planners = Planners { c2c: plan_c2c, r2r: plan_r2r, r2c: plan_r2c };
    let request = MixedC2cPlan::<u64, 2, 1>::from_shape(shape, ExtraShape::scalar(), transforms);
    MixedC2cPlan::construct(&one_process(), &planners, 11, [1], &plain_words, request)
}

fn ramp(len: usize) -> Vec<Value> {
    (0..len).map(|i| pair(i as f64 * 0.5 - 1.0, ((i * i) % 7) as f64)).collect()
}

fn real_ramp(len: usize) -> Vec<u64> {
    (0..len).map(|i| bits_of(((i * i * 3) % 11) as f64 - 2.5)).collect()
}

fn direct(data: &[Value], shape: [usize; 2], sign: f64) -> Vec<Value> {
    let [rows, columns] = shape;
    let mut result = dft(data, columns, sign, 1.0);
    for column in 0..columns {
        let line: Vec<Value> = (0..rows).map(|row| result[row * columns + column]).collect();
        let turned = dft(&line, rows, sign, 1.0);
        for row in 0..rows {
            result[row * columns + column] = turned[row];
        }
    }
    result
}

type Line = Box<dyn Fn(&[Value], usize) -> Result<Vec<Value>, LocalError>>;

fn complex_kernels(stages: &[Stage<2, 1>], sign: f64, normalized: bool) -> Vec<Line> {
    stages
        .iter()
        .map(|stage| {
            let n = stage.output.global_shape[stage.axis];
            let scale = if normalized { 1.0 / n as f64 } else { 1.0 };
            let kernel: Line = Box::new(move |line: &[Value], _len: usize| Ok(dft(line, n, sign, scale)));
            kernel
        })
        .collect()
}

fn moved<T>(load: Load<T, 2, 1>, to: &Layout) -> (Load<T, 2, 1>, Result<(), FftError>) {
    let (mut array, buffers) = load;
    exchange(&mut array, to);
    ((array, buffers), Ok(()))
}

#[test]
fn mixed_complex_plan_transforms_and_returns() {
    let shape = [4, 3];
    let plan = mixed_c2c(shape, [AxisTransform::Fft, AxisTransform::Fft]).unwrap();
    let mut source = plan.allocate_input().unwrap();
    source.data = ramp(12);
    let destination = plan.allocate_output().unwrap();
    let workspace = plan.allocate_workspace().unwrap();
    let launch = plan.forward(&source, &destination, &workspace);
    assert!(launch.preflight.is_ok());
    let kernels = complex_kernels(&plan.core.stages, -1.0, false);
    let there = |index: usize, passage: Passage, load: Load<Value, 2, 1>| {
        assert_eq!(passage, Passage { direction: Direction::Forward, kind: ExchangeKind::Local });
        moved(load, &plan.core.stages[index + 1].output)
    };
    let crew = MixedC2cCrew {
        core: &plan.core,
        direction: Direction::Forward,
        kernels: &kernels,
        exchange: &there,
        source: &source,
    };
    let ((spectrum, workspace), outcome) = execute(
        launch,
        plan.collection_descriptor(),
        &same_plan,
        &alone,
        &InTurn { crew: &crew },
        (destination, workspace),
    );
    assert_eq!(outcome, Ok(()));
    assert!(all_close(&spectrum.data, &direct(&source.data, shape, -1.0)));

    let back = plan.allocate_input().unwrap();
    assert!(plan.inverse(&spectrum, &back, &workspace).preflight.is_ok());
    let kernels = Ways {
        forward: complex_kernels(&plan.core.stages, -1.0, false),
        inverse: complex_kernels(&plan.core.stages, 1.0, true),
        backward: complex_kernels(&plan.core.stages, 1.0, false),
    };
    let home = |index: usize, _passage: Passage, load: Load<Value, 2, 1>| {
        moved(load, &plan.core.stages[index].input)
    };
    let crew = MixedC2cCrew::enlist(&plan.core, Direction::Inverse, &kernels, &home, &spectrum);
    let ((back, workspace), outcome) =
        crew.execute(&same_plan, &alone, (back, workspace));
    assert_eq!(outcome, Ok(()));
    assert!(all_close(&back.data, &source.data));

    assert!(plan.backward(&spectrum, &back, &workspace).preflight.is_ok());
    let crew = MixedC2cCrew::enlist(&plan.core, Direction::Backward, &kernels, &home, &spectrum);
    let ((back, workspace), outcome) =
        crew.execute(&same_plan, &alone, (back, workspace));
    assert_eq!(outcome, Ok(()));
    let grown: Vec<Value> =
        source.data.iter().map(|value| pair(12.0 * number(value[0]), 12.0 * number(value[1]))).collect();
    assert!(all_close(&back.data, &grown));

    let ticks = Cell::new(0u64);
    let now = || {
        ticks.set(ticks.get() + 1);
        ticks.get()
    };
    let ((back, workspace), report) = crew.execute_timed(&now, &same_plan, &alone, (back, workspace));
    assert!(all_close(&back.data, &grown));
    let report = report.unwrap();
    assert_eq!(report.total, ticks.get() - 1);
    let calls: Vec<(u64, u64)> =
        report.stages.iter().map(|stage| (stage.fft_calls, stage.fft)).collect();
    assert_eq!(calls, vec![(1, 1), (1, 1)]);
    assert_eq!(report.stages.iter().map(|stage| stage.transpose).sum::<u64>(), 1);
    assert_eq!(report.stages.iter().map(|stage| stage.total).sum::<u64>(), 3);
    let other_plan = |_operation: u64, _words: &Vec<u64>| Err(FftError::CollectiveDescriptorMismatch);
    let (_, report) = crew.execute_timed(&now, &other_plan, &alone, (back, workspace));
    assert_eq!(report.err(), Some(MixedError::Fft(FftError::CollectiveDescriptorMismatch)));
}

#[test]
fn mixed_complex_plan_transforms_in_place() {
    let shape = [2, 5];
    let plan = mixed_c2c(shape, [AxisTransform::Fft, AxisTransform::Unchanged]).unwrap();
    let mut array = plan.allocate_in_place().unwrap();
    let workspace = plan.allocate_in_place_workspace().unwrap();
    let data = ramp(10);
    array.view_mut().unwrap().copy_from_slice(&data);
    assert_eq!(array.state(), C2cState::Input);
    let launch = plan.forward_in_place(&array, &workspace);
    assert!(launch.preflight.is_ok());
    let kernels = complex_kernels(&plan.core.stages, -1.0, false);
    let there = |index: usize, _passage: Passage, load: Load<Value, 2, 1>| {
        moved(load, &plan.core.stages[index + 1].output)
    };
    let crew = MixedC2cInPlaceCrew {
        core: &plan.core,
        direction: Direction::Forward,
        kernels: &kernels,
        exchange: &there,
    };
    let ((array, workspace), outcome) = execute_in_place(
        launch,
        plan.collection_descriptor(),
        &same_plan,
        &alone,
        &InTurn { crew: &crew },
        (array, workspace),
    );
    assert_eq!(outcome, Ok(()));
    assert_eq!(array.state(), C2cState::Output);
    let mut expected = data.clone();
    for column in 0..5 {
        let line = [data[column], data[5 + column]];
        let turned = dft(&line, 2, -1.0, 1.0);
        expected[column] = turned[0];
        expected[5 + column] = turned[1];
    }
    assert!(all_close(array.view().unwrap(), &expected));
    let again = plan.forward_in_place(&array, &workspace);
    assert_eq!(again.preflight, Err(MixedError::Fft(FftError::InputLayoutMismatch)));

    let scaled = complex_kernels(&plan.core.stages, 1.0, true);
    let home = |index: usize, _passage: Passage, load: Load<Value, 2, 1>| {
        moved(load, &plan.core.stages[index].input)
    };
    let back = MixedC2cInPlaceCrew {
        core: &plan.core,
        direction: Direction::Inverse,
        kernels: &scaled,
        exchange: &home,
    };
    let ticks = Cell::new(0u64);
    let now = || {
        ticks.set(ticks.get() + 1);
        ticks.get()
    };
    let ((array, workspace), report) =
        back.execute_timed(&now, &same_plan, &alone, (array, workspace));
    let report = report.unwrap();
    assert_eq!(array.state(), C2cState::Input);
    assert!(all_close(array.view().unwrap(), &data));
    assert_eq!(report.total, ticks.get() - 1);
    assert_eq!(report.stages.iter().map(|stage| stage.fft_calls).collect::<Vec<u64>>(), vec![1, 1]);
    assert_eq!(report.stages.iter().map(|stage| stage.transpose).sum::<u64>(), 1);

    assert!(plan.forward_in_place(&array, &workspace).preflight.is_ok());
    let failing = |_index: usize, _passage: Passage, load: Load<Value, 2, 1>| {
        (load, Err(FftError::PreparationFailed))
    };
    let crew = MixedC2cInPlaceCrew {
        core: &plan.core,
        direction: Direction::Forward,
        kernels: &kernels,
        exchange: &failing,
    };
    let ((array, workspace), outcome) =
        crew.execute(&same_plan, &alone, (array, workspace));
    assert_eq!(outcome, Err(MixedError::Fft(FftError::PreparationFailed)));
    assert_eq!(array.state(), C2cState::Poisoned);
    assert!(array.view().is_err());
    let retried = plan.forward_in_place(&array, &workspace);
    assert_eq!(retried.preflight, Err(MixedError::Fft(FftError::Array(ArrayError::Poisoned))));
}

#[test]
fn hartley_plan_transforms_and_returns() {
    let shape = [3, 4];
    let planner = |_kind: AxisR2rKind, n: usize| -> Result<LocalR2rPlan, LocalR2rError> {
        Ok(LocalR2rPlan { line_len: n, embedding_len: n, scratch_len: n, normalization_factor: n })
    };
    let request = DhtPlan::<u64, 2, 1>::from_shape_with_selection(
        shape,
        ExtraShape::from_dimensions(vec![2]).unwrap(),
        AxisSelection::all(),
    );
    let plan = DhtPlan::<u64, 2, 1>::construct(&one_process(), &planner, 5, [1], request).unwrap();
    assert_eq!(plan.core.embedding_len, 4);
    assert_eq!(plan.core.strided_line_len, 3);
    let mut source = plan.allocate_input().unwrap();
    source.data = real_ramp(24);
    let destination = plan.allocate_output().unwrap();
    let workspace = plan.allocate_workspace().unwrap();
    let there = plan.forward(&source, &destination, &workspace);
    assert!(there.preflight.is_ok());
    let kernels = |scaled: bool| -> Vec<_> {
        plan.core
            .stages
            .iter()
            .map(|stage| {
                let n = shape[stage.axis];
                let scale = if scaled { 1.0 / n as f64 } else { 1.0 };
                move |line: &[u64], _len: usize| -> Result<Vec<u64>, LocalR2rError> {
                    Ok(hartley(line, n, scale))
                }
            })
            .collect()
    };
    let raw = kernels(false);
    let scaled = kernels(true);
    let outward = |index: usize, _passage: Passage, load: Load<u64, 2, 1>| {
        moved(load, &plan.core.stages[index + 1].output)
    };
    let homeward = |index: usize, _passage: Passage, load: Load<u64, 2, 1>| {
        moved(load, &plan.core.stages[index].input)
    };
    let forward = R2rCrew {
        core: &plan.core,
        direction: Direction::Forward,
        kernels: &raw,
        exchange: &outward,
        source: &source,
    };
    let ((spectrum, workspace), outcome) = execute(
        there,
        plan.collection_descriptor(),
        &same_plan,
        &alone,
        &InTurn { crew: &forward },
        (destination, workspace),
    );
    assert_eq!(outcome, Ok(()));
    assert!(!reals_close(&spectrum.data, &source.data));
    let total: f64 = source.data[..12].iter().map(|bits| number(*bits)).sum();
    assert!(close(number(spectrum.data[0]), total));
    let back = plan.allocate_input().unwrap();
    let reverse = R2rCrew {
        core: &plan.core,
        direction: Direction::Inverse,
        kernels: &scaled,
        exchange: &homeward,
        source: &spectrum,
    };
    let ((back, workspace), outcome) =
        reverse.execute(PlanFamily::Dht, &same_plan, &alone, (back, workspace));
    assert_eq!(outcome, Ok(()));
    assert!(reals_close(&back.data, &source.data));
    assert!(plan.backward(&spectrum, &back, &workspace).preflight.is_ok());
    let unscaled = R2rCrew {
        core: &plan.core,
        direction: Direction::Backward,
        kernels: &raw,
        exchange: &homeward,
        source: &spectrum,
    };
    let ((grown, _), outcome) =
        unscaled.execute(PlanFamily::Dht, &same_plan, &alone, (back, workspace));
    assert_eq!(outcome, Ok(()));
    assert!(reals_close(&grown.data, &times(12.0, &source.data)));

    let mut array = plan.allocate_in_place().unwrap();
    let buffers = plan.allocate_in_place_workspace().unwrap();
    array.view_mut().unwrap().copy_from_slice(&source.data);
    let there = R2rInPlaceCrew {
        core: &plan.core,
        direction: Direction::Forward,
        kernels: &raw,
        exchange: &outward,
    };
    let ((array, buffers), outcome) =
        there.execute(PlanFamily::Dht, &same_plan, &alone, (array, buffers));
    assert_eq!(outcome, Ok(()));
    assert!(reals_close(array.view().unwrap(), &spectrum.data));
    let home = R2rInPlaceCrew {
        core: &plan.core,
        direction: Direction::Inverse,
        kernels: &scaled,
        exchange: &homeward,
    };
    let ((array, _), outcome) =
        home.execute(PlanFamily::Dht, &same_plan, &alone, (array, buffers));
    assert_eq!(outcome, Ok(()));
    assert_eq!(array.state(), R2rState::Input);
    assert!(reals_close(array.view().unwrap(), &source.data));
}

#[test]
fn cosine_of_one_element_is_rejected() {
    let planner = |_kind: AxisR2rKind, n: usize| -> Result<LocalR2rPlan, LocalR2rError> {
        Ok(LocalR2rPlan { line_len: n, embedding_len: n, scratch_len: n, normalization_factor: n })
    };
    let request = R2rPlan::<u64, 2, 1>::from_shape(
        [1, 4],
        ExtraShape::scalar(),
        [Some(R2rKind::DctI), None],
    );
    let result = R2rPlan::<u64, 2, 1>::construct(&one_process(), &planner, 5, [1], request);
    assert_eq!(result.err(), Some(R2rError::LocalR2r(LocalR2rError::InvalidLength)));
}

#[test]
fn interrupted_real_array_shows_nothing() {
    let planner = |_kind: AxisR2rKind, n: usize| -> Result<LocalR2rPlan, LocalR2rError> {
        Ok(LocalR2rPlan { line_len: n, embedding_len: n, scratch_len: n, normalization_factor: n })
    };
    let request = R2rPlan::<u64, 2, 1>::from_shape(
        [2, 2],
        ExtraShape::scalar(),
        [Some(R2rKind::DctII), Some(R2rKind::DstIV)],
    );
    let plan = R2rPlan::<u64, 2, 1>::construct(&one_process(), &planner, 5, [1], request).unwrap();
    let array = plan.allocate_in_place().unwrap();
    let mut workspace = plan.allocate_in_place_workspace().unwrap();
    assert_eq!(array.state(), R2rState::Input);
    assert!(plan.forward_in_place(&array, &workspace).preflight.is_ok());
    let scratch = workspace.fft_scratch.pop();
    assert_eq!(
        plan.forward_in_place(&array, &workspace).preflight,
        Err(R2rError::Fft(FftError::WorkspaceTooSmall {
            kind: "fft scratch",
            required: 2,
            actual: 1,
        }))
    );
    workspace.fft_scratch.push(scratch.unwrap());
    let (array, outcome) = pencil_fft::r2r::run_r2r_in_place_transaction(
        array,
        R2rState::Output,
        |left| (left, Err(R2rError::Fft(FftError::PreparationFailed))),
    );
    assert_eq!(outcome, Err(R2rError::Fft(FftError::PreparationFailed)));
    assert_eq!(array.state(), R2rState::Poisoned);
    assert_eq!(array.ensure_viewable(), Err(R2rError::Fft(FftError::Array(ArrayError::Poisoned))));
    assert!(array.view().is_err());
    assert_eq!(
        plan.inverse_in_place(&array, &workspace).preflight,
        Err(R2rError::Fft(FftError::Array(ArrayError::Poisoned)))
    );
    let (array, outcome) =
        pencil_fft::r2r::run_r2r_in_place_transaction(array, R2rState::Output, |left| (left, Ok(())));
    assert_eq!(outcome, Ok(()));
    assert_eq!(array.state(), R2rState::Output);
}

fn tail_kernels(
    stages: &[Stage<2, 1>],
    sign: f64,
    normalized: bool,
) -> Vec<impl Fn(&[Value], usize) -> Result<Vec<Value>, LocalC2cError>> {
    stages
        .iter()
        .map(|stage| {
            let n = stage.output.global_shape[stage.axis];
            let scale = if normalized { 1.0 / n as f64 } else { 1.0 };
            move |line: &[Value], _len: usize| Ok(dft(line, n, sign, scale))
        })
        .collect()
}

fn real_kernels(
    stages: &[Stage<2, 1>],
    normalized: bool,
) -> Vec<impl Fn(&[u64], usize) -> Result<Vec<u64>, LocalError>> {
    stages
        .iter()
        .map(|stage| {
            let n = stage.output.global_shape[stage.axis];
            let scale = if normalized { 1.0 / n as f64 } else { 1.0 };
            move |line: &[u64], _len: usize| Ok(hartley(line, n, scale))
        })
        .collect()
}

fn half_plan(shape: [usize; 2], mask: [bool; 2]) -> Result<R2cPlan<u64, 2, 1>, R2cError> {
    half_plan_by(shape, mask, TransposeMethod::AllToAllv)
}

fn half_plan_by(
    shape: [usize; 2],
    mask: [bool; 2],
    method: TransposeMethod,
) -> Result<R2cPlan<u64, 2, 1>, R2cError> {
    let planners = R2cPlanners {
        c2c: |n: usize| -> Result<LocalC2cPlan, LocalC2cError> {
            Ok(LocalC2cPlan { line_len: n, scratch_len: n })
        },
        r2c: |n: usize| -> Result<LocalR2cPlan, LocalR2cError> {
            Ok(LocalR2cPlan { real_len: n, complex_len: n / 2 + 1, scratch_len: n })
        },
        threshold: |depth: u64, extents: &Vec<usize>| -> Result<u64, FftError> {
            Ok(depth * 1000 + extents.iter().product::<usize>() as u64)
        },
    };
    let request = R2cPlan::<u64, 2, 1>::from_shape_with_selection_and_layout(
        shape,
        ExtraShape::scalar(),
        AxisSelection { mask },
        DistributedLayout::with_method(method),
    );
    R2cPlan::construct(&one_process(), &planners, 21, [1], request)
}

fn run_half(plan: &R2cPlan<u64, 2, 1>, source: &PencilArray<u64, 2, 1>) -> PencilArray<Value, 2, 1> {
    let destination = plan.allocate_output().unwrap();
    let workspace = plan.allocate_workspace().unwrap();
    let launch = plan.forward(source, &destination, &workspace);
    assert!(launch.preflight.is_ok());
    let real_len = plan.boundary().plan.real_len;
    let kernels = tail_kernels(&plan.core.stages, -1.0, false);
    let crossing = |line: &[u64], _len: usize| -> Result<Vec<Value>, LocalR2cError> {
        Ok(half_forward(line, real_len))
    };
    let reals = |index: usize, _passage: Passage, load: Load<u64, 2, 1>| {
        moved(load, &plan.core.stages[index + 1].input)
    };
    let complexes = |index: usize, _passage: Passage, load: Load<Value, 2, 1>| {
        moved(load, &plan.core.stages[index + 1].output)
    };
    let crew = R2cForwardCrew {
        core: &plan.core,
        crossing: &crossing,
        kernels: &kernels,
        real_exchange: &reals,
        exchange: &complexes,
        source,
    };
    let ((spectrum, _), outcome) = execute(
        launch,
        plan.collection_descriptor(),
        &same_plan,
        &alone,
        &InTurn { crew: &crew },
        (destination, workspace),
    );
    assert_eq!(outcome, Ok(()));
    spectrum
}

type Stats = ([f64; 4], bool);

fn peak_of(_zero: &Stats, stats: Stats, plane: usize, value: Value) -> Stats {
    let mut stats = stats;
    let (re, im) = (number(value[0]), number(value[1]));
    if re.is_finite() && im.is_finite() {
        stats.0[plane * 2] = stats.0[plane * 2].max(re.abs().max(im.abs()));
        stats.0[plane * 2 + 1] = stats.0[plane * 2 + 1].max(im.abs());
    } else {
        stats.1 = true;
    }
    stats
}

fn share_of(peaks: &Stats, stats: Stats, plane: usize, value: Value) -> Stats {
    let mut stats = stats;
    let (re, im) = (number(value[0]), number(value[1]));
    let scale = peaks.0[plane * 2];
    if scale > 0.0 && re.is_finite() && im.is_finite() {
        stats.0[plane * 2] += (re / scale) * (re / scale);
        stats.0[plane * 2 + 1] += (im / scale) * (im / scale);
    }
    stats
}

fn keep(stats: Stats) -> Stats {
    stats
}

const NOTHING: Stats = ([0.0; 4], false);

type Strict = Gauge<
    fn(&Stats, Stats, usize, Value) -> Stats,
    fn(Stats) -> Stats,
    fn(&Stats, Stats, usize, Value) -> Stats,
    fn(Stats) -> Stats,
    fn(Stats, Stats, Stats) -> bool,
>;

fn strict() -> Strict {
    Gauge {
        peak: peak_of,
        all_peaks: keep,
        share: share_of,
        all_shares: keep,
        judge: nearly_real,
    }
}

fn nearly_real(own: Stats, peaks: Stats, shares: Stats) -> bool {
    !own.1 && (0..2).all(|plane: usize| {
        peaks.0[plane * 2 + 1] <= 1e-300
            || shares.0[plane * 2 + 1].sqrt() <= 1e-12 * shares.0[plane * 2].sqrt()
    })
}

fn return_half(plan: &R2cPlan<u64, 2, 1>, spectrum: &PencilArray<Value, 2, 1>) -> PencilArray<u64, 2, 1> {
    try_return_half(plan, spectrum).unwrap()
}

fn try_return_half(
    plan: &R2cPlan<u64, 2, 1>,
    spectrum: &PencilArray<Value, 2, 1>,
) -> Result<PencilArray<u64, 2, 1>, R2cError> {
    reverse_half(plan, spectrum, true)
}

fn reverse_half(
    plan: &R2cPlan<u64, 2, 1>,
    spectrum: &PencilArray<Value, 2, 1>,
    normalized: bool,
) -> Result<PencilArray<u64, 2, 1>, R2cError> {
    let destination = plan.allocate_input().unwrap();
    let workspace = plan.allocate_workspace().unwrap();
    let launch = if normalized {
        plan.inverse(spectrum, &destination, &workspace)
    } else {
        plan.backward(spectrum, &destination, &workspace)
    };
    assert!(launch.preflight.is_ok());
    let real_len = plan.boundary().plan.real_len;
    let kernels = tail_kernels(&plan.core.stages, 1.0, normalized);
    let crossing = |line: &[Value], _len: usize| -> Result<Vec<u64>, LocalR2cError> {
        let scale = if normalized { 1.0 / real_len as f64 } else { 1.0 };
        Ok(scaled_half_reverse(line, real_len, scale))
    };
    let reals = |index: usize, _passage: Passage, load: Load<u64, 2, 1>| {
        moved(load, &plan.core.stages[index].input)
    };
    let complexes = |index: usize, _passage: Passage, load: Load<Value, 2, 1>| {
        moved(load, &plan.core.stages[index].output)
    };
    let gauge = strict();
    let inspector =
        HalfInspector { core: &plan.core, agree: &alone, gauge: &gauge, zero: NOTHING, start: 0 };
    let crew = R2cReverseCrew {
        core: &plan.core,
        direction: if normalized { Direction::Inverse } else { Direction::Backward },
        crossing: &crossing,
        kernels: &kernels,
        real_exchange: &reals,
        exchange: &complexes,
        inspector: &inspector,
        source: spectrum,
    };
    let ((back, _), outcome) =
        crew.execute(&same_plan, &alone, (destination, workspace));
    outcome.map(|_| back)
}

#[test]
fn half_complex_plan_transforms_and_returns() {
    let shape = [3, 6];
    let plan = half_plan(shape, [true, true]).unwrap();
    assert_eq!(plan.core.boundary, 0);
    assert_eq!(plan.core.raw_absolute_threshold, 3003);
    let mut source = plan.allocate_input().unwrap();
    source.data = real_ramp(18);
    let spectrum = run_half(&plan, &source);
    assert_eq!(spectrum.data.len(), 12);
    let full: Vec<Value> = source.data.iter().map(|value| [*value, bits_of(0.0)]).collect();
    let expected = direct(&full, shape, -1.0);
    for row in 0..3 {
        assert!(all_close(&spectrum.data[row * 4..row * 4 + 4], &expected[row * 6..row * 6 + 4]));
    }
    let back = return_half(&plan, &spectrum);
    assert!(reals_close(&back.data, &source.data));
    let grown = reverse_half(&plan, &spectrum, false).unwrap();
    assert!(reals_close(&grown.data, &times(18.0, &source.data)));
}

#[test]
fn half_complex_plan_with_real_prefix_transforms_and_returns() {
    let shape = [5, 2];
    let plan = half_plan(shape, [true, false]).unwrap();
    assert_eq!(plan.core.boundary, 1);
    let workspace = plan.allocate_workspace().unwrap();
    assert_eq!(workspace.real_source_line.as_ref().map(|line| line.len()), Some(5));
    assert!(workspace.real_intermediate.is_some());
    let mut source = plan.allocate_input().unwrap();
    source.data = real_ramp(10);
    let spectrum = run_half(&plan, &source);
    assert_eq!(spectrum.data.len(), 6);
    for column in 0..2 {
        let line: Vec<u64> = (0..5).map(|row| source.data[row * 2 + column]).collect();
        let expected = half_forward(&line, 5);
        for row in 0..3 {
            let value = spectrum.data[row * 2 + column];
            assert!(close(number(value[0]), number(expected[row][0])));
            assert!(close(number(value[1]), number(expected[row][1])));
        }
    }
    let back = return_half(&plan, &spectrum);
    assert!(reals_close(&back.data, &source.data));
}

#[test]
fn half_complex_plan_without_axes_is_rejected() {
    assert_eq!(
        half_plan([3, 6], [false, false]).err(),
        Some(R2cError::Fft(FftError::InvalidDimensions))
    );
}

#[test]
fn half_complex_arrays_change_sides_in_place() {
    for (shape, mask) in [([2, 4], [false, true]), ([6, 3], [true, false])] {
        let plan = half_plan(shape, mask).unwrap();
        let mut array = plan.allocate_in_place().unwrap();
        let workspace = plan.allocate_in_place_workspace().unwrap();
        let count = shape[0] * shape[1];
        let data = real_ramp(count);
        array.real_view_mut().unwrap().copy_from_slice(&data);
        assert_eq!(array.state(), R2cState::RealInput);
        assert_eq!(
            array.complex_view().err(),
            Some(R2cError::Fft(FftError::OutputLayoutMismatch))
        );
        let bytes = array.storage_capacity_bytes().unwrap();
        assert!(plan.forward_in_place(&array, &workspace).preflight.is_ok());
        let boundary = plan.boundary();
        let real_len = boundary.plan.real_len;
        let forward = |line: &[u64], _len: usize| -> Result<Vec<Value>, LocalR2cError> {
            Ok(half_forward(line, real_len))
        };
        let lines = workspace.line_buffers();
        assert_eq!(
            convert_real_to_complex(&forward, &boundary, &mut array.shared, &lines),
            Ok(())
        );
        assert_eq!(array.storage_capacity_bytes(), Some(bytes));
        array.state = R2cState::ComplexOutput;
        let axis = boundary.stage.axis;
        let stride = if axis == 1 { 1 } else { shape[1] };
        let mut expected = Vec::new();
        if stride == 1 {
            expected = half_forward(&data, real_len);
        } else {
            let columns: Vec<Vec<Value>> = (0..stride)
                .map(|column| {
                    let line: Vec<u64> =
                        (0..real_len).map(|row| data[row * stride + column]).collect();
                    half_forward(&line, real_len)
                })
                .collect();
            for row in 0..real_len / 2 + 1 {
                for column in &columns {
                    expected.push(column[row]);
                }
            }
        }
        assert!(all_close(&array.complex_view().unwrap()[..expected.len()], &expected));
        assert!(matches!(array.shared.storage, Some(HalfComplexStorage::Complex(_))));
        let reverse = |line: &[Value], _len: usize| -> Result<Vec<u64>, LocalR2cError> {
            Ok(half_reverse(line, real_len))
        };
        let real_layout = boundary.stage.input;
        assert_eq!(
            convert_complex_to_real(&reverse, &boundary, &mut array.shared, &lines),
            Ok(())
        );
        array.state = R2cState::RealInput;
        if let Some(HalfComplexStorage::Real(values)) = &array.shared.storage {
            assert!(values.active_pencil().unwrap().same_layout(&real_layout));
        }
        assert!(reals_close(array.real_view().unwrap(), &data));
    }
}

#[test]
fn rejected_line_keeps_the_allocation() {
    let plan = half_plan([2, 4], [false, true]).unwrap();
    let mut array = plan.allocate_in_place().unwrap();
    let workspace = plan.allocate_in_place_workspace().unwrap();
    let bytes = array.storage_capacity_bytes();
    let failing = |_line: &[u64], _len: usize| -> Result<Vec<Value>, LocalR2cError> {
        Err(LocalR2cError::InvalidLength)
    };
    let boundary = plan.boundary();
    let lines = workspace.line_buffers();
    assert_eq!(
        convert_real_to_complex(&failing, &boundary, &mut array.shared, &lines),
        Err(R2cError::LocalR2c(LocalR2cError::InvalidLength))
    );
    assert_eq!(array.storage_capacity_bytes(), bytes);
    assert_eq!(
        convert_real_to_complex(&failing, &boundary, &mut array.shared, &lines),
        Err(R2cError::Fft(FftError::StorageLayoutMismatch))
    );
}

#[test]
fn rejected_line_poisons_a_mixed_allocation() {
    let plan = mixed_half([2, 4], [AxisTransform::Unchanged, AxisTransform::Rfft]).unwrap();
    let mut array = plan.allocate_in_place().unwrap();
    let bytes = array.storage_capacity_bytes();
    let failing = |_line: &[u64], _len: usize| -> Result<Vec<Value>, LocalError> {
        Err(LocalError::R2c(LocalR2cError::InvalidLength))
    };
    let lines = LineBuffers {
        real_source_line: Some(4),
        real_line: 4,
        complex_source_line: 3,
        complex_line: 3,
    };
    assert_eq!(
        mixed_convert_real_to_complex(
            &failing,
            &plan.core.boundary_lines(),
            &plan.core.extra_shape,
            &mut array.shared,
            &lines,
        ),
        Err(MixedError::LocalR2c(LocalR2cError::InvalidLength))
    );
    assert!(matches!(
        array.shared.storage,
        Some(HalfComplexStorage::PoisonedReal(_)) | Some(HalfComplexStorage::PoisonedComplex(_))
    ));
    assert_eq!(array.storage_capacity_bytes(), bytes);
}

fn mixed_half(shape: [usize; 2], transforms: [AxisTransform; 2]) -> Result<MixedR2cPlan<u64, 2, 1>, MixedError> {
    mixed_half_by(shape, transforms, TransposeMethod::AllToAllv)
}

fn mixed_half_by(
    shape: [usize; 2],
    transforms: [AxisTransform; 2],
    method: TransposeMethod,
) -> Result<MixedR2cPlan<u64, 2, 1>, MixedError> {
    let planners = Planners { c2c: plan_c2c, r2r: plan_r2r, r2c: plan_r2c };
    let threshold = |terms: &Vec<pencil_fft::boundary::DepthTerm>| -> Result<u64, FftError> {
        Ok(terms.iter().map(|term| (term.native_len * 10 + term.factor) as u64 + term.allowance as u64).sum())
    };
    let request = MixedR2cPlan::<u64, 2, 1>::from_shape_with_method(
        shape,
        ExtraShape::scalar(),
        transforms,
        method,
    );
    MixedR2cPlan::construct(&one_process(), &planners, &threshold, 31, [1], &plain_words, request)
}

fn run_mixed_half(
    plan: &MixedR2cPlan<u64, 2, 1>,
    source: &PencilArray<u64, 2, 1>,
) -> PencilArray<Value, 2, 1> {
    let destination = plan.allocate_output().unwrap();
    let workspace = plan.allocate_workspace().unwrap();
    let launch = plan.forward(source, &destination, &workspace);
    assert!(launch.preflight.is_ok());
    let real_len = plan.original_n();
    let prefixes = real_kernels(&plan.core.stages, false);
    let kernels = complex_kernels(&plan.core.stages, -1.0, false);
    let crossing = |line: &[u64], _len: usize| -> Result<Vec<Value>, LocalError> {
        Ok(half_forward(line, real_len))
    };
    let reals = |index: usize, _passage: Passage, load: Load<u64, 2, 1>| {
        moved(load, &plan.core.stages[index + 1].input)
    };
    let complexes = |index: usize, _passage: Passage, load: Load<Value, 2, 1>| {
        moved(load, &plan.core.stages[index + 1].output)
    };
    let crew = MixedR2cForwardCrew {
        core: &plan.core,
        prefixes: &prefixes,
        crossing: &crossing,
        kernels: &kernels,
        real_exchange: &reals,
        exchange: &complexes,
        source,
    };
    let ((spectrum, _), outcome) = execute(
        launch,
        plan.collection_descriptor(),
        &same_plan,
        &alone,
        &InTurn { crew: &crew },
        (destination, workspace),
    );
    assert_eq!(outcome, Ok(()));
    spectrum
}

fn return_mixed_half(
    plan: &MixedR2cPlan<u64, 2, 1>,
    spectrum: &PencilArray<Value, 2, 1>,
) -> PencilArray<u64, 2, 1> {
    try_return_mixed_half(plan, spectrum, Ok(())).unwrap()
}

fn try_return_mixed_half(
    plan: &MixedR2cPlan<u64, 2, 1>,
    spectrum: &PencilArray<Value, 2, 1>,
    policy: Result<(), FftError>,
) -> Result<PencilArray<u64, 2, 1>, MixedError> {
    reverse_mixed_half(plan, spectrum, policy, true)
}

fn reverse_mixed_half(
    plan: &MixedR2cPlan<u64, 2, 1>,
    spectrum: &PencilArray<Value, 2, 1>,
    policy: Result<(), FftError>,
    normalized: bool,
) -> Result<PencilArray<u64, 2, 1>, MixedError> {
    let destination = plan.allocate_input().unwrap();
    let workspace = plan.allocate_workspace().unwrap();
    let launch = if normalized {
        plan.inverse(spectrum, &destination, &workspace)
    } else {
        plan.backward(spectrum, &destination, &workspace)
    };
    assert!(launch.preflight.is_ok());
    let real_len = plan.original_n();
    let prefixes = real_kernels(&plan.core.stages, normalized);
    let kernels = complex_kernels(&plan.core.stages, 1.0, normalized);
    let crossing = |line: &[Value], _len: usize| -> Result<Vec<u64>, LocalError> {
        let scale = if normalized { 1.0 / real_len as f64 } else { 1.0 };
        Ok(scaled_half_reverse(line, real_len, scale))
    };
    let reals = |index: usize, _passage: Passage, load: Load<u64, 2, 1>| {
        moved(load, &plan.core.stages[index].input)
    };
    let complexes = |index: usize, _passage: Passage, load: Load<Value, 2, 1>| {
        moved(load, &plan.core.stages[index].output)
    };
    let gauge = strict();
    let inspector = MixedInspector {
        core: &plan.core,
        agree: &alone,
        gauge: &gauge,
        zero: NOTHING,
        policy,
    };
    let crew = MixedR2cReverseCrew {
        core: &plan.core,
        direction: if normalized { Direction::Inverse } else { Direction::Backward },
        prefixes: &prefixes,
        crossing: &crossing,
        kernels: &kernels,
        real_exchange: &reals,
        exchange: &complexes,
        inspector: &inspector,
        source: spectrum,
    };
    let ((back, _), outcome) =
        crew.execute(&same_plan, &alone, (destination, workspace));
    outcome.map(|_| back)
}

#[test]
fn mixed_half_complex_plan_transforms_and_returns() {
    let shape = [4, 5];
    let plan = mixed_half(shape, [AxisTransform::Fft, AxisTransform::Rfft]).unwrap();
    assert_eq!(plan.reduction_axis(), 1);
    assert_eq!(plan.original_n(), 5);
    assert_eq!(plan.core.raw_absolute_threshold, 44);
    assert_eq!(plan.backend_kind(), BackendKind::RustFft);
    let mut source = plan.allocate_input().unwrap();
    source.data = real_ramp(20);
    let spectrum = run_mixed_half(&plan, &source);
    let full: Vec<Value> = source.data.iter().map(|value| [*value, bits_of(0.0)]).collect();
    let expected = direct(&full, shape, -1.0);
    for row in 0..4 {
        assert!(all_close(&spectrum.data[row * 3..row * 3 + 3], &expected[row * 5..row * 5 + 3]));
    }
    let back = return_mixed_half(&plan, &spectrum);
    assert!(reals_close(&back.data, &source.data));
    let grown = reverse_mixed_half(&plan, &spectrum, Ok(()), false).unwrap();
    assert!(reals_close(&grown.data, &times(20.0, &source.data)));
}

#[test]
fn mixed_half_complex_plan_with_prefix_transforms_and_returns() {
    let shape = [6, 3];
    let plan = mixed_half(
        shape,
        [AxisTransform::Rfft, AxisTransform::R2r(AxisR2rKind::Dht)],
    )
    .unwrap();
    assert_eq!(plan.reduction_axis(), 0);
    assert_eq!(plan.core.boundary, 1);
    let mut source = plan.allocate_input().unwrap();
    source.data = real_ramp(18);
    let spectrum = run_mixed_half(&plan, &source);
    let turned = hartley(&source.data, 3, 1.0);
    for column in 0..3 {
        let line: Vec<u64> = (0..6).map(|row| turned[row * 3 + column]).collect();
        let expected = half_forward(&line, 6);
        for row in 0..4 {
            let value = spectrum.data[row * 3 + column];
            assert!(close(number(value[0]), number(expected[row][0])));
            assert!(close(number(value[1]), number(expected[row][1])));
        }
    }
    let back = return_mixed_half(&plan, &spectrum);
    assert!(reals_close(&back.data, &source.data));
}

#[test]
fn mixed_half_complex_arrays_change_sides_in_place() {
    for (shape, transforms) in [
        ([3, 4], [AxisTransform::Unchanged, AxisTransform::Rfft]),
        ([4, 2], [AxisTransform::Rfft, AxisTransform::Unchanged]),
    ] {
        let plan = mixed_half(shape, transforms).unwrap();
        let mut array = plan.allocate_in_place().unwrap();
        let workspace = plan.allocate_in_place_workspace().unwrap();
        let data = real_ramp(shape[0] * shape[1]);
        array.real_view_mut().unwrap().copy_from_slice(&data);
        assert!(plan.forward_in_place(&array, &workspace).preflight.is_ok());
        let boundary = plan.core.boundary_lines();
        if let Some(HalfComplexStorage::Real(values)) = &mut array.shared.storage {
            exchange(values, &boundary.stage.input);
        }
        let real_len = boundary.plan.real_len;
        let lines = LineBuffers {
            real_source_line: Some(workspace.buffers.real_source_line.len()),
            real_line: workspace.buffers.real_line.len(),
            complex_source_line: workspace.buffers.complex_source_line.len(),
            complex_line: workspace.buffers.complex_line.len(),
        };
        let forward = |line: &[u64], _len: usize| -> Result<Vec<Value>, LocalError> {
            Ok(half_forward(line, real_len))
        };
        assert_eq!(
            mixed_convert_real_to_complex(
                &forward,
                &boundary,
                &plan.core.extra_shape,
                &mut array.shared,
                &lines,
            ),
            Ok(())
        );
        array.state = R2cState::ComplexOutput;
        assert!(array.complex_view().is_ok());
        assert!(!matches!(array.shared.storage, Some(HalfComplexStorage::Real(_))));
        let reverse = |line: &[Value], _len: usize| -> Result<Vec<u64>, LocalError> {
            Ok(half_reverse(line, real_len))
        };
        assert_eq!(
            mixed_convert_complex_to_real(
                &reverse,
                &boundary,
                &plan.core.extra_shape,
                &mut array.shared,
                &lines,
            ),
            Ok(())
        );
        array.state = R2cState::RealInput;
        assert!(reals_close(array.real_view().unwrap(), &data));
    }
}

#[test]
fn mixed_half_complex_plan_needs_one_boundary() {
    assert_eq!(
        mixed_half([4, 4], [AxisTransform::Fft, AxisTransform::Fft]).err(),
        Some(MixedError::InvalidGraph)
    );
    assert_eq!(
        mixed_half([4, 4], [AxisTransform::Rfft, AxisTransform::Fft]).err(),
        Some(MixedError::InvalidGraph)
    );
    assert_eq!(
        mixed_c2c([4, 4], [AxisTransform::Rfft, AxisTransform::Fft]).err(),
        Some(MixedError::InvalidGraph)
    );
}

#[test]
fn exchanges_are_built_for_the_method_and_the_extra_dimensions() {
    let planner = |_kind: AxisR2rKind, n: usize| -> Result<LocalR2rPlan, LocalR2rError> {
        Ok(LocalR2rPlan { line_len: n, embedding_len: n, scratch_len: n, normalization_factor: n })
    };
    for (method, kind) in [
        (TransposeMethod::AllToAllv, ExchangeKind::Local),
        (TransposeMethod::PointToPoint, ExchangeKind::PointToPoint),
    ] {
        let request = R2rPlan::<u64, 2, 1>::from_shape_with_method(
            [2, 3],
            ExtraShape::from_dimensions(vec![5]).unwrap(),
            [None, None],
            method,
        );
        let plan = R2rPlan::<u64, 2, 1>::construct(&one_process(), &planner, 5, [1], request).unwrap();
        assert_eq!(plan.core.transitions, vec![Transition { forward: kind, backward: kind }]);
        assert_eq!(plan.core.lens.send, 4);
        assert!(moves_by(&plan.core.transitions, TransposeMethod::PointToPoint));
    }
    let all = Transition { forward: ExchangeKind::Identity, backward: ExchangeKind::AllToAllv };
    assert!(moves_by(&vec![all], TransposeMethod::AllToAllv));
    assert!(!moves_by(&vec![all], TransposeMethod::PointToPoint));
}

#[test]
fn layouts_that_are_not_canonical_are_refused() {
    let planner = |_kind: AxisR2rKind, n: usize| -> Result<LocalR2rPlan, LocalR2rError> {
        Ok(LocalR2rPlan { line_len: n, embedding_len: n, scratch_len: n, normalization_factor: n })
    };
    let ask = |input: Layout| {
        let request =
            R2rPlan::<u64, 2, 1>::from_pencil(input, ExtraShape::scalar(), [None, None]);
        R2rPlan::<u64, 2, 1>::construct(&one_process(), &planner, 5, [1], request).err()
    };
    assert_eq!(ask(place([2, 3], 0)), None);
    let refused = Some(R2rError::Fft(FftError::InputLayoutMismatch));
    assert_eq!(ask(place([2, 3], 1)), refused);
    let reversed = Pencil::from_parts(1, 1, [2, 3], [0], [1, 0], [2, 3]).unwrap();
    assert_eq!(ask(reversed), refused);
    let mut request =
        R2rPlan::<u64, 2, 1>::from_pencil(place([2, 3], 0), ExtraShape::scalar(), [None, None]);
    request.global_shape = [3, 2];
    let built = R2rPlan::<u64, 2, 1>::construct(&one_process(), &planner, 5, [1], request);
    assert_eq!(built.err(), refused);
}

#[test]
fn descriptors_hold_the_words_of_the_backend() {
    let planners = Planners { c2c: plan_c2c, r2r: plan_r2r, r2c: plan_r2c };
    let marked = |backend: BackendChoice| match backend {
        BackendChoice::RustFft => [3, 1, 4, 1, 5, 9, 2],
        BackendChoice::Fftw(_) => [0; 7],
    };
    let transforms = [AxisTransform::Fft, AxisTransform::Fft];
    let request = MixedC2cPlan::<u64, 2, 1>::from_shape([2, 2], ExtraShape::scalar(), transforms);
    let plan =
        MixedC2cPlan::<u64, 2, 1>::construct(&one_process(), &planners, 1, [1], &marked, request).unwrap();
    let words = plan.collection_descriptor();
    assert_eq!(words[words.len() - 9..], [3, 1, 4, 1, 5, 9, 2, 0, 0]);
}

#[test]
fn backward_sign_needs_a_complex_axis() {
    let planners = Planners { c2c: plan_c2c, r2r: plan_r2r, r2c: plan_r2c };
    let signs = FourierDirections([FourierDirection::Forward, FourierDirection::Backward]);
    let request = MixedC2cPlan::<u64, 2, 1>::from_shape_with_fft_directions(
        [2, 2],
        ExtraShape::scalar(),
        [AxisTransform::Fft, AxisTransform::Unchanged],
        signs,
    );
    let result = MixedC2cPlan::<u64, 2, 1>::construct(&one_process(), &planners, 1, [1], &plain_words, request);
    assert_eq!(result.err(), Some(MixedError::Fft(FftError::PreparationFailed)));
}

#[test]
fn rebuilt_plan_refuses_arrays_of_the_first() {
    let plan = mixed_c2c([2, 2], [AxisTransform::Fft, AxisTransform::Fft]).unwrap();
    let signs = FourierDirections([FourierDirection::Backward, FourierDirection::Forward]);
    let request: PlanRequest<_, 2, 1> = plan.with_fft_directions(signs);
    let planners = Planners { c2c: plan_c2c, r2r: plan_r2r, r2c: plan_r2c };
    let mut route = one_process();
    route.pencil = |shape| {
        let mut pencil = place(shape, 0);
        pencil.id = 999;
        Ok(pencil)
    };
    route.route = |input, shape, _permute| {
        let mut last = place(shape, 1);
        last.id = 998;
        Ok(RouteCandidate { stages: vec![input, last], distributed: vec![0] })
    };
    let rebuilt = MixedC2cPlan::<u64, 2, 1>::construct(&route, &planners, 12, [1], &plain_words, request).unwrap();
    assert_eq!(rebuilt.fft_directions().0, signs.0);
    assert!(rebuilt.core.strict_array_identity);
    let source = plan.allocate_input().unwrap();
    let destination = rebuilt.allocate_output().unwrap();
    let workspace = rebuilt.allocate_workspace().unwrap();
    assert_eq!(
        rebuilt.forward(&source, &destination, &workspace).preflight,
        Err(MixedError::Fft(FftError::InputLayoutMismatch))
    );
    let own = rebuilt.allocate_input().unwrap();
    assert!(rebuilt.forward(&own, &destination, &workspace).preflight.is_ok());
    let foreign = plan.allocate_workspace().unwrap();
    assert_eq!(
        rebuilt.forward(&own, &destination, &foreign).preflight,
        Err(MixedError::Fft(FftError::WorkspaceMismatch))
    );
}

#[test]
fn overlap_needs_point_to_point_exchanges() {
    let plan = mixed_c2c([2, 2], [AxisTransform::Fft, AxisTransform::Fft]).unwrap();
    let source = plan.allocate_input().unwrap();
    let destination = plan.allocate_output().unwrap();
    let workspace = plan.allocate_workspace().unwrap();
    let launch = plan.forward_with_overlap(&source, &destination, &workspace);
    let kernels = complex_kernels(&plan.core.stages, -1.0, false);
    let there = |index: usize, _passage: Passage, load: Load<Value, 2, 1>| {
        moved(load, &plan.core.stages[index + 1].output)
    };
    let split = |_index: usize, _direction: Direction, _valid: Option<bool>, load: Load<Value, 2, 1>| {
        (load, Err(OverlapError::PeerPanicked))
    };
    let crew = MixedC2cOverlapCrew {
        crew: MixedC2cCrew {
            core: &plan.core,
            direction: Direction::Forward,
            kernels: &kernels,
            exchange: &there,
            source: &source,
        },
        split: &split,
    };
    let ((untouched, _), outcome) = execute_overlapped(
        launch,
        plan.collection_descriptor(),
        &same_plan,
        &alone,
        &Overlapped { crew: &crew },
        (destination, workspace),
    );
    assert_eq!(untouched.data, plan.allocate_output().unwrap().data);
    assert_eq!(outcome, Err(FftOverlapError::UnsupportedTransport));

    let planners = Planners { c2c: plan_c2c, r2r: plan_r2r, r2c: plan_r2c };
    let request = MixedC2cPlan::<u64, 2, 1>::from_shape_with_method(
        [2, 2],
        ExtraShape::scalar(),
        [AxisTransform::Fft, AxisTransform::Fft],
        TransposeMethod::PointToPoint,
    );
    let plan = MixedC2cPlan::<u64, 2, 1>::construct(&one_process(), &planners, 1, [1], &plain_words, request).unwrap();
    assert_eq!(
        plan.layout(),
        DistributedLayout { transpose_method: TransposeMethod::PointToPoint, permute_dims: true }
    );
    let shape = [2, 2];
    for kind in [ExchangeKind::Local, ExchangeKind::PointToPoint] {
        let mut plan = MixedC2cPlan::<u64, 2, 1>::construct(
            &one_process(),
            &planners,
            1,
            [1],
            &plain_words,
            MixedC2cPlan::<u64, 2, 1>::from_shape_with_method(
                shape,
                ExtraShape::scalar(),
                [AxisTransform::Fft, AxisTransform::Fft],
                TransposeMethod::PointToPoint,
            ),
        )
        .unwrap();
        plan.core.transitions[0].forward = kind;
        let mut source = plan.allocate_input().unwrap();
        source.data = ramp(4);
        let expected = direct(&source.data, shape, -1.0);
        let kernels = complex_kernels(&plan.core.stages, -1.0, false);
        let failing: Vec<Line> = vec![
            Box::new(|line: &[Value], _len: usize| Ok(line.to_vec())),
            Box::new(|_line: &[Value], _len: usize| {
                Err(LocalError::C2c(LocalC2cError::InvalidLength))
            }),
        ];
        let there = |index: usize, passage: Passage, load: Load<Value, 2, 1>| {
            assert_eq!(kind, ExchangeKind::Local);
            assert_eq!(passage, Passage { direction: Direction::Forward, kind });
            moved(load, &plan.core.stages[index + 1].output)
        };
        let calls = std::cell::RefCell::new(Vec::new());
        let split = |index: usize, _direction: Direction, valid: Option<bool>, load: Load<Value, 2, 1>| {
            calls.borrow_mut().push(valid);
            match valid {
                None => {
                    let (load, _) = moved(load, &plan.core.stages[index + 1].output);
                    (load, Ok(()))
                }
                Some(_) => (load, Ok(())),
            }
        };
        let refused = |_index: usize, _direction: Direction, valid: Option<bool>, load: Load<Value, 2, 1>| {
            (
                load,
                match valid {
                    None => Ok(()),
                    Some(_) => Err(OverlapError::PeerCallbackFailed),
                },
            )
        };
        let workspace = plan.allocate_workspace().unwrap();
        let destination = plan.allocate_output().unwrap();
        let crew = |kernels| MixedC2cCrew {
            core: &plan.core,
            direction: Direction::Forward,
            kernels,
            exchange: &there,
            source: &source,
        };
        let able = MixedC2cOverlapCrew { crew: crew(&kernels), split: &split };
        let ((spectrum, workspace), outcome) = able.execute(&same_plan, &alone, (destination, workspace));
        assert_eq!(outcome, Ok(()));
        assert!(all_close(&spectrum.data, &expected));
        let inside = kind == ExchangeKind::PointToPoint;
        assert_eq!(*calls.borrow(), if inside { vec![None, Some(true)] } else { vec![] });

        let rejected = MixedError::Fft(FftError::LocalC2c(LocalC2cError::InvalidLength));
        let broken = MixedC2cOverlapCrew { crew: crew(&failing), split: &split };
        let ((spectrum, workspace), outcome) = broken.execute(&same_plan, &alone, (spectrum, workspace));
        assert_eq!(
            outcome,
            Err(if inside {
                FftOverlapError::Overlap(OverlapError::Callback(rejected))
            } else {
                FftOverlapError::Operation(rejected)
            })
        );
        if inside {
            assert_eq!(calls.borrow().last(), Some(&Some(false)));
            let lonely = MixedC2cOverlapCrew { crew: crew(&kernels), split: &refused };
            let launch = plan.forward_with_overlap(&source, &spectrum, &workspace);
            let (_, outcome) = execute_overlapped(
                launch,
                plan.collection_descriptor(),
                &same_plan,
                &alone,
                &Overlapped { crew: &lonely },
                (spectrum, workspace),
            );
            assert_eq!(
                outcome,
                Err(FftOverlapError::Overlap(OverlapError::PeerCallbackFailed))
            );
        }
    }
}

#[test]
fn differing_plans_end_an_execution_before_it_starts() {
    let plan = mixed_c2c([2, 2], [AxisTransform::Fft, AxisTransform::Fft]).unwrap();
    let source = plan.allocate_input().unwrap();
    let destination = plan.allocate_output().unwrap();
    let workspace = plan.allocate_workspace().unwrap();
    let kernels = complex_kernels(&plan.core.stages, -1.0, false);
    let there = |index: usize, _passage: Passage, load: Load<Value, 2, 1>| {
        moved(load, &plan.core.stages[index + 1].output)
    };
    let crew = MixedC2cCrew {
        core: &plan.core,
        direction: Direction::Forward,
        kernels: &kernels,
        exchange: &there,
        source: &source,
    };
    let other = |_operation: u64, _words: &Vec<u64>| -> Result<(), FftError> {
        Err(FftError::CollectiveDescriptorMismatch)
    };
    let launch = plan.forward(&source, &destination, &workspace);
    let ((destination, workspace), outcome) = execute(
        launch,
        plan.collection_descriptor(),
        &other,
        &alone,
        &InTurn { crew: &crew },
        (destination, workspace),
    );
    assert_eq!(outcome, Err(MixedError::Fft(FftError::CollectiveDescriptorMismatch)));
    assert_eq!(destination.data, plan.allocate_output().unwrap().data);
    let unwilling = |_valid: bool| -> bool { false };
    let launch = plan.forward(&source, &destination, &workspace);
    let ((destination, _), outcome) = execute(
        launch,
        plan.collection_descriptor(),
        &same_plan,
        &unwilling,
        &InTurn { crew: &crew },
        (destination, workspace),
    );
    assert_eq!(outcome, Err(MixedError::Fft(FftError::CollectivePreconditionFailed)));
    assert_eq!(destination.data, plan.allocate_output().unwrap().data);
}

#[test]
fn half_spectrum_with_imaginary_endpoints_is_rejected() {
    let plan = half_plan([3, 6], [true, true]).unwrap();
    let mut source = plan.allocate_input().unwrap();
    source.data = real_ramp(18);
    let spectrum = run_half(&plan, &source);
    // Each line has four values, of which the first and the last are endpoints.
    for (position, accepted) in [(0, false), (1, true), (2, true), (3, false), (4, false)] {
        let mut changed = plan.allocate_output().unwrap();
        changed.data = spectrum.data.clone();
        let value = changed.data[position];
        changed.data[position] = [value[0], bits_of(number(value[1]) + 5.0)];
        let outcome = try_return_half(&plan, &changed).map(|back| back.data.len());
        assert_eq!(outcome, if accepted { Ok(18) } else { Err(R2cError::InvalidSpectrum) });
    }
    let mut broken = plan.allocate_output().unwrap();
    broken.data = spectrum.data.clone();
    broken.data[0] = pair(f64::NAN, 0.0);
    assert_eq!(
        try_return_half(&plan, &broken).map(|back| back.data.len()),
        Err(R2cError::InvalidSpectrum)
    );
}

#[test]
fn mixed_spectrum_with_imaginary_endpoints_is_rejected() {
    let plan = mixed_half([6, 3], [AxisTransform::Rfft, AxisTransform::R2r(AxisR2rKind::Dht)]).unwrap();
    let mut source = plan.allocate_input().unwrap();
    source.data = real_ramp(18);
    let spectrum = run_mixed_half(&plan, &source);
    for (position, accepted) in [(0, false), (2, false), (3, true), (8, true), (9, false), (11, false)] {
        let mut changed = plan.allocate_output().unwrap();
        changed.data = spectrum.data.clone();
        let value = changed.data[position];
        changed.data[position] = [value[0], bits_of(number(value[1]) + 5.0)];
        let outcome = try_return_mixed_half(&plan, &changed, Ok(())).map(|back| back.data.len());
        assert_eq!(outcome, if accepted { Ok(18) } else { Err(MixedError::InvalidSpectrum) });
    }
    assert_eq!(
        try_return_mixed_half(&plan, &spectrum, Err(FftError::PreparationFailed))
            .map(|back| back.data.len()),
        Err(MixedError::Fft(FftError::PreparationFailed))
    );
}

#[test]
fn endpoint_check_needs_an_active_layout() {
    let plan = half_plan([3, 6], [true, true]).unwrap();
    let mut workspace = plan.allocate_workspace().unwrap();
    workspace.intermediate.active = None;
    let outcome =
        validate_boundary(&plan.core, &alone, &strict(), NOTHING, 0, &workspace.intermediate);
    assert!(matches!(outcome, Err(R2cError::Fft(FftError::Array(_)))));
}

#[test]
fn half_complex_plan_transforms_in_place() {
    for (shape, mask) in [([3, 6], [true, true]), ([5, 2], [true, false]), ([2, 4], [false, true])] {
        let plan = half_plan(shape, mask).unwrap();
        let real_len = plan.boundary().plan.real_len;
        let mut source = plan.allocate_input().unwrap();
        source.data = real_ramp(source.data.len());
        let expected = run_half(&plan, &source);
        let mut array = plan.allocate_in_place().unwrap();
        let workspace = plan.allocate_in_place_workspace().unwrap();
        array.real_view_mut().unwrap().copy_from_slice(&source.data);
        let raw = tail_kernels(&plan.core.stages, -1.0, false);
        let scaled = tail_kernels(&plan.core.stages, 1.0, true);
        let outward = |line: &[u64], _len: usize| -> Result<Vec<Value>, LocalR2cError> {
            Ok(half_forward(line, real_len))
        };
        let homeward = |line: &[Value], _len: usize| -> Result<Vec<u64>, LocalR2cError> {
            Ok(half_reverse(line, real_len))
        };
        let reals_there = |index: usize, _passage: Passage, load: Load<u64, 2, 1>| {
            moved(load, &plan.core.stages[index + 1].input)
        };
        let there = |index: usize, _passage: Passage, load: Load<Value, 2, 1>| {
            moved(load, &plan.core.stages[index + 1].output)
        };
        let reals_home = |index: usize, _passage: Passage, load: Load<u64, 2, 1>| {
            moved(load, &plan.core.stages[index].input)
        };
        let home = |index: usize, _passage: Passage, load: Load<Value, 2, 1>| {
            moved(load, &plan.core.stages[index].output)
        };
        let gauge = strict();
        let inspector = HalfInspector {
            core: &plan.core,
            agree: &alone,
            gauge: &gauge,
            zero: NOTHING,
            start: 0,
        };
        let forward = R2cInPlaceForwardCrew {
            core: &plan.core,
            crossing: &outward,
            kernels: &raw,
            real_exchange: &reals_there,
            exchange: &there,
        };
        let reverse = R2cInPlaceReverseCrew {
            core: &plan.core,
            direction: Direction::Inverse,
            crossing: &homeward,
            kernels: &scaled,
            real_exchange: &reals_home,
            exchange: &home,
            inspector: &inspector,
        };
        let launch = plan.forward_in_place(&array, &workspace);
        assert!(launch.preflight.is_ok());
        let ((array, workspace), outcome) = execute_in_place(
            launch,
            plan.collection_descriptor(),
            &same_plan,
            &alone,
            &InTurn { crew: &forward },
            (array, workspace),
        );
        assert_eq!(outcome, Ok(()));
        assert_eq!(array.state(), R2cState::ComplexOutput);
        assert!(all_close(array.complex_view().unwrap(), &expected.data));
        assert!(plan.inverse_in_place(&array, &workspace).preflight.is_ok());
        let ((array, workspace), outcome) =
            reverse.execute(&same_plan, &alone, (array, workspace));
        assert_eq!(outcome, Ok(()));
        assert_eq!(array.state(), R2cState::RealInput);
        assert!(reals_close(array.real_view().unwrap(), &source.data));
        assert!(plan.forward_in_place(&array, &workspace).preflight.is_ok());

        let mut stray = plan.allocate_in_place().unwrap();
        stray.real_view_mut().unwrap().copy_from_slice(&source.data);
        let idle = |_index: usize, _passage: Passage, load: Load<Value, 2, 1>| (load, Ok(()));
        let lost = R2cInPlaceForwardCrew {
            core: &plan.core,
            crossing: &outward,
            kernels: &raw,
            real_exchange: &reals_there,
            exchange: &idle,
        };
        let ((stray, _), outcome) =
            lost.execute(&same_plan, &alone, (stray, workspace));
        if plan.core.boundary == 0 {
            assert_eq!(outcome, Err(R2cError::Fft(FftError::PreparationFailed)));
            assert_eq!(stray.state(), R2cState::Poisoned);
        } else {
            assert_eq!(outcome, Ok(()));
        }
    }
}

#[test]
fn failed_real_exchange_forfeits_the_allocation() {
    let plan = half_plan([5, 2], [true, false]).unwrap();
    assert_eq!(plan.core.boundary, 1);
    let real_len = plan.boundary().plan.real_len;
    let array = plan.allocate_in_place().unwrap();
    let workspace = plan.allocate_in_place_workspace().unwrap();
    let raw = tail_kernels(&plan.core.stages, -1.0, false);
    let outward = |line: &[u64], _len: usize| -> Result<Vec<Value>, LocalR2cError> {
        Ok(half_forward(line, real_len))
    };
    let broken = |_index: usize, _passage: Passage, load: Load<u64, 2, 1>| {
        (load, Err(FftError::PreparationFailed))
    };
    let there = |index: usize, _passage: Passage, load: Load<Value, 2, 1>| {
        moved(load, &plan.core.stages[index + 1].output)
    };
    let crew = R2cInPlaceForwardCrew {
        core: &plan.core,
        crossing: &outward,
        kernels: &raw,
        real_exchange: &broken,
        exchange: &there,
    };
    let ((array, workspace), outcome) =
        crew.execute(&same_plan, &alone, (array, workspace));
    assert_eq!(outcome, Err(R2cError::Fft(FftError::PreparationFailed)));
    assert_eq!(array.state(), R2cState::Poisoned);
    assert!(array.shared.storage.is_none());
    let poisoned = R2cError::Fft(FftError::Array(ArrayError::Poisoned));
    assert_eq!(array.real_view().map(|values| values.len()), Err(poisoned));
    assert_eq!(array.complex_view().map(|values| values.len()), Err(poisoned));
    let ((array, _), outcome) =
        crew.execute(&same_plan, &alone, (array, workspace));
    assert_eq!(outcome, Err(poisoned));
    assert_eq!(array.state(), R2cState::Poisoned);
}

#[test]
fn mixed_half_complex_plan_transforms_in_place() {
    for (shape, transforms) in [
        ([4, 6], [AxisTransform::Fft, AxisTransform::Rfft]),
        ([6, 4], [AxisTransform::Rfft, AxisTransform::R2r(AxisR2rKind::Dht)]),
        ([5, 3], [AxisTransform::Rfft, AxisTransform::Unchanged]),
    ] {
        let plan = mixed_half(shape, transforms).unwrap();
        let real_len = plan.original_n();
        let mut source = plan.allocate_input().unwrap();
        source.data = real_ramp(source.data.len());
        let expected = run_mixed_half(&plan, &source);
        let mut array = plan.allocate_in_place().unwrap();
        let workspace = plan.allocate_in_place_workspace().unwrap();
        array.real_view_mut().unwrap().copy_from_slice(&source.data);
        let raw = complex_kernels(&plan.core.stages, -1.0, false);
        let scaled = complex_kernels(&plan.core.stages, 1.0, true);
        let prefixes = real_kernels(&plan.core.stages, false);
        let scaled_prefixes = real_kernels(&plan.core.stages, true);
        let outward = |line: &[u64], _len: usize| -> Result<Vec<Value>, LocalError> {
            Ok(half_forward(line, real_len))
        };
        let homeward = |line: &[Value], _len: usize| -> Result<Vec<u64>, LocalError> {
            Ok(half_reverse(line, real_len))
        };
        let reals_there = |index: usize, _passage: Passage, load: Load<u64, 2, 1>| {
            moved(load, &plan.core.stages[index + 1].input)
        };
        let there = |index: usize, _passage: Passage, load: Load<Value, 2, 1>| {
            moved(load, &plan.core.stages[index + 1].output)
        };
        let reals_home = |index: usize, _passage: Passage, load: Load<u64, 2, 1>| {
            moved(load, &plan.core.stages[index].input)
        };
        let home = |index: usize, _passage: Passage, load: Load<Value, 2, 1>| {
            moved(load, &plan.core.stages[index].output)
        };
        let gauge = strict();
        let inspector = MixedInspector {
            core: &plan.core,
            agree: &alone,
            gauge: &gauge,
            zero: NOTHING,
            policy: Ok(()),
        };
        let forward = MixedR2cInPlaceForwardCrew {
            core: &plan.core,
            prefixes: &prefixes,
            crossing: &outward,
            kernels: &raw,
            real_exchange: &reals_there,
            exchange: &there,
        };
        let reverse = MixedR2cInPlaceReverseCrew {
            core: &plan.core,
            direction: Direction::Inverse,
            prefixes: &scaled_prefixes,
            crossing: &homeward,
            kernels: &scaled,
            real_exchange: &reals_home,
            exchange: &home,
            inspector: &inspector,
        };
        let launch = plan.forward_in_place(&array, &workspace);
        assert!(launch.preflight.is_ok());
        let ((array, workspace), outcome) = execute_in_place(
            launch,
            plan.collection_descriptor(),
            &same_plan,
            &alone,
            &InTurn { crew: &forward },
            (array, workspace),
        );
        assert_eq!(outcome, Ok(()));
        assert_eq!(array.state(), R2cState::ComplexOutput);
        assert!(all_close(array.complex_view().unwrap(), &expected.data));
        assert!(plan.inverse_in_place(&array, &workspace).preflight.is_ok());
        let ((array, workspace), outcome) =
            reverse.execute(&same_plan, &alone, (array, workspace));
        assert_eq!(outcome, Ok(()));
        assert_eq!(array.state(), R2cState::RealInput);
        assert!(reals_close(array.real_view().unwrap(), &source.data));
        assert!(plan.forward_in_place(&array, &workspace).preflight.is_ok());
    }
}

#[test]
fn half_complex_plan_overlaps_kernels_and_exchanges() {
    for (shape, mask) in [([3, 6], [true, true]), ([5, 2], [true, false])] {
        let plan = half_plan_by(shape, mask, TransposeMethod::PointToPoint).unwrap();
        let real_len = plan.boundary().plan.real_len;
        let mut source = plan.allocate_input().unwrap();
        source.data = real_ramp(source.data.len());
        let expected = run_half(&plan, &source);
        let raw = tail_kernels(&plan.core.stages, -1.0, false);
        let scaled = tail_kernels(&plan.core.stages, 1.0, true);
        let outward = |line: &[u64], _len: usize| -> Result<Vec<Value>, LocalR2cError> {
            Ok(half_forward(line, real_len))
        };
        let homeward = |line: &[Value], _len: usize| -> Result<Vec<u64>, LocalR2cError> {
            Ok(half_reverse(line, real_len))
        };
        let reals_there = |index: usize, _passage: Passage, load: Load<u64, 2, 1>| {
            moved(load, &plan.core.stages[index + 1].input)
        };
        let there = |index: usize, _passage: Passage, load: Load<Value, 2, 1>| {
            moved(load, &plan.core.stages[index + 1].output)
        };
        let reals_home = |index: usize, _passage: Passage, load: Load<u64, 2, 1>| {
            moved(load, &plan.core.stages[index].input)
        };
        let home = |index: usize, _passage: Passage, load: Load<Value, 2, 1>| {
            moved(load, &plan.core.stages[index].output)
        };
        let real_split_there = |index: usize, _direction: Direction, valid: Option<bool>, load: Load<u64, 2, 1>| {
            let to = plan.core.stages[index + 1].input;
            (if valid.is_none() { moved(load, &to).0 } else { load }, Ok(()))
        };
        let split_there = |index: usize, _direction: Direction, valid: Option<bool>, load: Load<Value, 2, 1>| {
            let to = plan.core.stages[index + 1].output;
            (if valid.is_none() { moved(load, &to).0 } else { load }, Ok(()))
        };
        let real_split_home = |index: usize, _direction: Direction, valid: Option<bool>, load: Load<u64, 2, 1>| {
            let to = plan.core.stages[index].input;
            (if valid.is_none() { moved(load, &to).0 } else { load }, Ok(()))
        };
        let split_home = |index: usize, _direction: Direction, valid: Option<bool>, load: Load<Value, 2, 1>| {
            let to = plan.core.stages[index].output;
            (if valid.is_none() { moved(load, &to).0 } else { load }, Ok(()))
        };
        let gauge = strict();
        let inspector = HalfInspector {
            core: &plan.core,
            agree: &alone,
            gauge: &gauge,
            zero: NOTHING,
            start: 0,
        };
        let forward = R2cForwardOverlapCrew {
            crew: R2cForwardCrew {
                core: &plan.core,
                crossing: &outward,
                kernels: &raw,
                real_exchange: &reals_there,
                exchange: &there,
                source: &source,
            },
            real_split: &real_split_there,
            split: &split_there,
        };
        let destination = plan.allocate_output().unwrap();
        let workspace = plan.allocate_workspace().unwrap();
        let launch = plan.forward_with_overlap(&source, &destination, &workspace);
        assert!(launch.supported);
        let ((spectrum, workspace), outcome) = execute_overlapped(
            launch,
            plan.collection_descriptor(),
            &same_plan,
            &alone,
            &Overlapped { crew: &forward },
            (destination, workspace),
        );
        assert_eq!(outcome, Ok(()));
        assert_eq!(spectrum.data, expected.data);
        let reverse = R2cReverseOverlapCrew {
            crew: R2cReverseCrew {
                core: &plan.core,
                direction: Direction::Inverse,
                crossing: &homeward,
                kernels: &scaled,
                real_exchange: &reals_home,
                exchange: &home,
                inspector: &inspector,
                source: &spectrum,
            },
            real_split: &real_split_home,
            split: &split_home,
        };
        let back = plan.allocate_input().unwrap();
        let ((back, _), outcome) = reverse.execute(&same_plan, &alone, (back, workspace));
        assert_eq!(outcome, Ok(()));
        assert!(reals_close(&back.data, &source.data));
        assert_eq!(back.data, return_half(&plan, &spectrum).data);

        let reals_let_down = |index: usize, _direction: Direction, valid: Option<bool>, load: Load<u64, 2, 1>| {
            let to = plan.core.stages[index + 1].input;
            match valid {
                None => (moved(load, &to).0, Ok(())),
                Some(_) => (load, Err(OverlapError::PeerCallbackFailed)),
            }
        };
        let let_down = |index: usize, _direction: Direction, valid: Option<bool>, load: Load<Value, 2, 1>| {
            let to = plan.core.stages[index + 1].output;
            match valid {
                None => (moved(load, &to).0, Ok(())),
                Some(_) => (load, Err(OverlapError::PeerCallbackFailed)),
            }
        };
        let lonely = R2cForwardOverlapCrew {
            crew: R2cForwardCrew {
                core: &plan.core,
                crossing: &outward,
                kernels: &raw,
                real_exchange: &reals_there,
                exchange: &there,
                source: &source,
            },
            real_split: &reals_let_down,
            split: &let_down,
        };
        let destination = plan.allocate_output().unwrap();
        let workspace = plan.allocate_workspace().unwrap();
        let ((destination, workspace), outcome) =
            lonely.execute(&same_plan, &alone, (destination, workspace));
        assert_eq!(outcome, Err(FftOverlapError::Overlap(OverlapError::PeerCallbackFailed)));
        if plan.core.boundary > 0 {
            assert_eq!(workspace.intermediate.active, None);
            let launch = plan.forward(&source, &destination, &workspace);
            assert_eq!(
                launch.preflight,
                Err(R2cError::Fft(FftError::Array(ArrayError::Poisoned)))
            );
        }
        let fresh = plan.allocate_workspace().unwrap();
        let ((spectrum, _), outcome) = forward.execute(&same_plan, &alone, (destination, fresh));
        assert_eq!(outcome, Ok(()));
        assert_eq!(spectrum.data, expected.data);

        let broken_line = |_line: &[Value], _len: usize| -> Result<Vec<u64>, LocalR2cError> {
            Err(LocalR2cError::InvalidLength)
        };
        let broken = R2cReverseOverlapCrew {
            crew: R2cReverseCrew {
                core: &plan.core,
                direction: Direction::Inverse,
                crossing: &broken_line,
                kernels: &scaled,
                real_exchange: &reals_home,
                exchange: &home,
                inspector: &inspector,
                source: &spectrum,
            },
            real_split: &real_split_home,
            split: &split_home,
        };
        let back = plan.allocate_input().unwrap();
        let workspace = plan.allocate_workspace().unwrap();
        let ((back, workspace), outcome) = broken.execute(&same_plan, &alone, (back, workspace));
        let rejected = R2cError::LocalR2c(LocalR2cError::InvalidLength);
        if plan.core.boundary + 1 < plan.core.stages.len() {
            assert_eq!(outcome, Err(FftOverlapError::Overlap(OverlapError::Callback(rejected))));
        } else {
            assert_eq!(outcome, Err(FftOverlapError::Operation(rejected)));
        }
        if let Some(reals) = &workspace.real_intermediate {
            assert_eq!(reals.active, None);
        }
        let reverse = R2cReverseOverlapCrew {
            crew: R2cReverseCrew {
                core: &plan.core,
                direction: Direction::Inverse,
                crossing: &homeward,
                kernels: &scaled,
                real_exchange: &reals_home,
                exchange: &home,
                inspector: &inspector,
                source: &spectrum,
            },
            real_split: &real_split_home,
            split: &split_home,
        };
        let fresh = plan.allocate_workspace().unwrap();
        let ((back, _), outcome) = reverse.execute(&same_plan, &alone, (back, fresh));
        assert_eq!(outcome, Ok(()));
        assert!(reals_close(&back.data, &source.data));
    }
}

#[test]
fn refused_spectrum_leaves_the_destination() {
    for (shape, mask) in [([3, 6], [true, true]), ([5, 2], [true, false])] {
        let plan = half_plan(shape, mask).unwrap();
        let real_len = plan.boundary().plan.real_len;
        let mut source = plan.allocate_input().unwrap();
        source.data = real_ramp(source.data.len());
        let mut spectrum = run_half(&plan, &source);
        spectrum.data[0] = pair(1.0, 50.0);
        let scaled = tail_kernels(&plan.core.stages, 1.0, true);
        let homeward = |line: &[Value], _len: usize| -> Result<Vec<u64>, LocalR2cError> {
            Ok(half_reverse(line, real_len))
        };
        let reals_home = |index: usize, _passage: Passage, load: Load<u64, 2, 1>| {
            moved(load, &plan.core.stages[index].input)
        };
        let home = |index: usize, _passage: Passage, load: Load<Value, 2, 1>| {
            moved(load, &plan.core.stages[index].output)
        };
        let gauge = strict();
        let inspector = HalfInspector {
            core: &plan.core,
            agree: &alone,
            gauge: &gauge,
            zero: NOTHING,
            start: 0,
        };
        let reverse = R2cReverseCrew {
            core: &plan.core,
            direction: Direction::Inverse,
            crossing: &homeward,
            kernels: &scaled,
            real_exchange: &reals_home,
            exchange: &home,
            inspector: &inspector,
            source: &spectrum,
        };
        let mut back = plan.allocate_input().unwrap();
        back.data = real_ramp(back.data.len());
        let marked = back.data.clone();
        let workspace = plan.allocate_workspace().unwrap();
        let ((back, _), outcome) = reverse.execute(&same_plan, &alone, (back, workspace));
        assert_eq!(outcome, Err(R2cError::InvalidSpectrum));
        assert_eq!(back.data, marked);
    }
}

#[test]
fn kernels_are_those_of_the_direction() {
    let ways = Ways { forward: 1, inverse: 2, backward: 3 };
    assert_eq!(*ways.along(Direction::Forward), 1);
    assert_eq!(*ways.along(Direction::Inverse), 2);
    assert_eq!(*ways.along(Direction::Backward), 3);
    let home = WaysHome { inverse: 2, backward: 3 };
    assert_eq!(*home.along(Direction::Inverse), 2);
    assert_eq!(*home.along(Direction::Backward), 3);
}

#[test]
fn handoff_is_refused_without_room() {
    let plan = half_plan([2, 4], [false, true]).unwrap();
    let mut array = plan.allocate_in_place().unwrap();
    let data = real_ramp(array.real_view().unwrap().len());
    array.real_view_mut().unwrap().copy_from_slice(&data);
    let boundary = plan.boundary();
    let real_len = boundary.plan.real_len;
    let lines = plan.allocate_in_place_workspace().unwrap().line_buffers();
    let forward = |line: &[u64], _len: usize| -> Result<Vec<Value>, LocalR2cError> {
        Ok(half_forward(line, real_len))
    };
    let reverse = |line: &[Value], _len: usize| -> Result<Vec<u64>, LocalR2cError> {
        Ok(half_reverse(line, real_len))
    };
    let stored = data.len();
    assert_eq!(
        convert_real_to_complex_in(&forward, &boundary, &mut array.shared, &lines, stored),
        Err(R2cError::Fft(FftError::StorageLayoutMismatch))
    );
    assert_eq!(array.real_view().unwrap(), &data[..]);
    assert_eq!(
        convert_real_to_complex_in(&forward, &boundary, &mut array.shared, &lines, 4 * stored),
        Ok(())
    );
    assert!(matches!(array.shared.storage, Some(HalfComplexStorage::Complex(_))));
    assert_eq!(
        convert_complex_to_real_in(&reverse, &boundary, &mut array.shared, &lines, 4 * stored),
        Ok(())
    );
    assert!(reals_close(array.real_view().unwrap(), &data));
    assert_eq!(capacity_bytes_of(16, 3), Some(48));
    assert_eq!(capacity_bytes_of(16, usize::MAX), None);
}

#[test]
fn mixed_handoff_is_refused_at_an_odd_capacity() {
    let plan = mixed_half([2, 4], [AxisTransform::Unchanged, AxisTransform::Rfft]).unwrap();
    let mut array = plan.allocate_in_place().unwrap();
    let data = real_ramp(array.real_view().unwrap().len());
    array.real_view_mut().unwrap().copy_from_slice(&data);
    let forward = |line: &[u64], _len: usize| -> Result<Vec<Value>, LocalError> {
        Ok(half_forward(line, 4))
    };
    let reverse = |line: &[Value], _len: usize| -> Result<Vec<u64>, LocalError> {
        Ok(half_reverse(line, 4))
    };
    let lines = LineBuffers {
        real_source_line: Some(4),
        real_line: 4,
        complex_source_line: 3,
        complex_line: 3,
    };
    let boundary = plan.core.boundary_lines();
    let extra = &plan.core.extra_shape;
    assert_eq!(
        mixed_convert_real_to_complex_in(&forward, &boundary, extra, &mut array.shared, &lines, 41),
        Err(MixedError::Fft(FftError::StorageLayoutMismatch))
    );
    assert!(matches!(array.shared.storage, Some(HalfComplexStorage::PoisonedReal(_))));
    let mut array = plan.allocate_in_place().unwrap();
    array.real_view_mut().unwrap().copy_from_slice(&data);
    assert_eq!(
        mixed_convert_real_to_complex_in(&forward, &boundary, extra, &mut array.shared, &lines, 40),
        Ok(())
    );
    assert_eq!(
        mixed_convert_complex_to_real_in(&reverse, &boundary, extra, &mut array.shared, &lines, 20),
        Ok(())
    );
    assert!(reals_close(array.real_view().unwrap(), &data));
}

#[test]
fn mixed_half_complex_plan_overlaps_kernels_and_exchanges() {
    for (shape, transforms) in [
        ([4, 6], [AxisTransform::Fft, AxisTransform::Rfft]),
        ([6, 4], [AxisTransform::Rfft, AxisTransform::R2r(AxisR2rKind::Dht)]),
    ] {
        let plan = mixed_half_by(shape, transforms, TransposeMethod::PointToPoint).unwrap();
        let real_len = plan.original_n();
        let mut source = plan.allocate_input().unwrap();
        source.data = real_ramp(source.data.len());
        let expected = run_mixed_half(&plan, &source);
        let raw = complex_kernels(&plan.core.stages, -1.0, false);
        let scaled = complex_kernels(&plan.core.stages, 1.0, true);
        let prefixes = real_kernels(&plan.core.stages, false);
        let scaled_prefixes = real_kernels(&plan.core.stages, true);
        let outward = |line: &[u64], _len: usize| -> Result<Vec<Value>, LocalError> {
            Ok(half_forward(line, real_len))
        };
        let homeward = |line: &[Value], _len: usize| -> Result<Vec<u64>, LocalError> {
            Ok(half_reverse(line, real_len))
        };
        let reals_there = |index: usize, _passage: Passage, load: Load<u64, 2, 1>| {
            moved(load, &plan.core.stages[index + 1].input)
        };
        let there = |index: usize, _passage: Passage, load: Load<Value, 2, 1>| {
            moved(load, &plan.core.stages[index + 1].output)
        };
        let reals_home = |index: usize, _passage: Passage, load: Load<u64, 2, 1>| {
            moved(load, &plan.core.stages[index].input)
        };
        let home = |index: usize, _passage: Passage, load: Load<Value, 2, 1>| {
            moved(load, &plan.core.stages[index].output)
        };
        let real_split_there = |index: usize, _direction: Direction, valid: Option<bool>, load: Load<u64, 2, 1>| {
            let to = plan.core.stages[index + 1].input;
            (if valid.is_none() { moved(load, &to).0 } else { load }, Ok(()))
        };
        let split_there = |index: usize, _direction: Direction, valid: Option<bool>, load: Load<Value, 2, 1>| {
            let to = plan.core.stages[index + 1].output;
            (if valid.is_none() { moved(load, &to).0 } else { load }, Ok(()))
        };
        let real_split_home = |index: usize, _direction: Direction, valid: Option<bool>, load: Load<u64, 2, 1>| {
            let to = plan.core.stages[index].input;
            (if valid.is_none() { moved(load, &to).0 } else { load }, Ok(()))
        };
        let split_home = |index: usize, _direction: Direction, valid: Option<bool>, load: Load<Value, 2, 1>| {
            let to = plan.core.stages[index].output;
            (if valid.is_none() { moved(load, &to).0 } else { load }, Ok(()))
        };
        let gauge = strict();
        let inspector = MixedInspector {
            core: &plan.core,
            agree: &alone,
            gauge: &gauge,
            zero: NOTHING,
            policy: Ok(()),
        };
        let forward = MixedR2cForwardOverlapCrew {
            crew: MixedR2cForwardCrew {
                core: &plan.core,
                prefixes: &prefixes,
                crossing: &outward,
                kernels: &raw,
                real_exchange: &reals_there,
                exchange: &there,
                source: &source,
            },
            real_split: &real_split_there,
            split: &split_there,
        };
        let destination = plan.allocate_output().unwrap();
        let workspace = plan.allocate_workspace().unwrap();
        let launch = plan.forward_with_overlap(&source, &destination, &workspace);
        assert!(launch.supported);
        let ((spectrum, workspace), outcome) = execute_overlapped(
            launch,
            plan.collection_descriptor(),
            &same_plan,
            &alone,
            &Overlapped { crew: &forward },
            (destination, workspace),
        );
        assert_eq!(outcome, Ok(()));
        assert_eq!(spectrum.data, expected.data);
        let reverse = MixedR2cReverseOverlapCrew {
            crew: MixedR2cReverseCrew {
                core: &plan.core,
                direction: Direction::Inverse,
                prefixes: &scaled_prefixes,
                crossing: &homeward,
                kernels: &scaled,
                real_exchange: &reals_home,
                exchange: &home,
                inspector: &inspector,
                source: &spectrum,
            },
            real_split: &real_split_home,
            split: &split_home,
        };
        let back = plan.allocate_input().unwrap();
        let ((back, _), outcome) = reverse.execute(&same_plan, &alone, (back, workspace));
        assert_eq!(outcome, Ok(()));
        assert!(reals_close(&back.data, &source.data));
        assert_eq!(back.data, return_mixed_half(&plan, &spectrum).data);
    }
}
