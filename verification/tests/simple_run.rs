//! The course of a laminar SIMPLE run, its checks and its fields.

use ferrum::components::{
    combine_components, component_name, component_value, momentum_failure,
    scalar_component_boundary, split_components, Component,
};
use ferrum::diffusion::FaceBoundaryTreatment;
use ferrum::error::MeshError;
use ferrum::fields::{FieldBoundaryPatch, FieldFile, FieldValueSummary, InitialFieldSet};
use ferrum::flow::{
    validate_laminar_simple_options, validate_runtime_mesh, validate_solver_preconditioner,
    LaminarSimpleLinearSolver, LaminarSimpleOptions, LaminarSimplePreconditioner,
};
use ferrum::flow_checks::{
    cell_error, check_correction_flux, check_face_size, check_mass_flux, check_momentum_system,
    check_relaxation, check_same_faces, check_variable_system, patch_boundary_faces,
};
use ferrum::flow_fields::{
    face_treatments, find_field, parse_patch_numeric_values, pressure_correction_treatments,
    runtime_field, summarize_boundaries, FixedValues, FlowField, FlowValue,
};
use ferrum::linear::{next_step, validate_iterative_solve_input, CsrMatrix, SolveStep};
use ferrum::plan::{SolverRuntimeFieldPlan, SolverRuntimePatchRange, SolverStateFieldKind};
use ferrum::reals::{Readings, Real, RealKind};
use ferrum::runtime::{check_faces, check_patches, check_sizes, SolverRuntimeMeshData};
use ferrum::simple_loop::{
    is_pressure_correction_breakdown, laminar_simple_converged, ConvergenceMeasures, KeptFields,
    SimpleAction, SimpleEvent, SimpleRun,
};

fn number(value: f64) -> Real {
    let kind = if !value.is_finite() {
        RealKind::NotFinite
    } else if value < 0.0 {
        RealKind::Negative
    } else if value == 0.0 {
        RealKind::Zero
    } else if value <= 1.0 {
        RealKind::UpToOne
    } else {
        RealKind::AboveOne
    };
    Real {
        kind,
        display: format!("{value}"),
        scientific: format!("{value:.6e}"),
        percent: format!("{:.3}%", value * 100.0),
        full: if value == 0.0 { "0".to_string() } else { format!("{value:.16e}") },
    }
}

fn within(all: bool) -> ConvergenceMeasures {
    ConvergenceMeasures {
        continuity_within: all,
        pressure_drop_within: all,
        velocity_change_within: all,
        pressure_change_within: all,
        momentum_residual_within: None,
        pressure_residual_within: Some(all),
    }
}

fn step(run: &mut SimpleRun, event: SimpleEvent) -> SimpleAction {
    run.advance(event).expect("event");
    run.action
}

#[test]
fn runs_until_the_fields_converge() {
    let mut run = SimpleRun::new(5, 2);
    for iteration in 1..=2 {
        assert_eq!(run.action, SimpleAction::Predict);
        let event = SimpleEvent::Predicted { iterations: 3, finite: true };
        assert_eq!(step(&mut run, event), SimpleAction::Balance);
        let event = SimpleEvent::Balanced { finite: true, within: false };
        assert_eq!(step(&mut run, event), SimpleAction::SolvePressure);
        let event = SimpleEvent::PressureSolved { iterations: 4 };
        assert_eq!(step(&mut run, event), SimpleAction::Correct);
        let event = SimpleEvent::Corrected { finite: true };
        assert_eq!(step(&mut run, event), SimpleAction::Measure);
        step(&mut run, SimpleEvent::Measured(within(true)));
        assert_eq!(run.history.len(), iteration);
    }
    assert_eq!(run.action, SimpleAction::Finish);
    assert!(run.converged);
    assert_eq!(run.total_momentum_linear_iterations, 6);
    assert_eq!(run.total_pressure_linear_iterations, 8);
    assert_eq!(run.history[1].iteration, 2);
    assert_eq!(run.history[1].kept, KeptFields::Corrected);
    assert!(run.history[1].pressure_correction_accepted);
}

#[test]
fn stops_at_the_iteration_limit() {
    let mut run = SimpleRun::new(1, 1);
    step(&mut run, SimpleEvent::Predicted { iterations: 1, finite: true });
    let event = SimpleEvent::Balanced { finite: true, within: true };
    assert_eq!(step(&mut run, event), SimpleAction::Measure);
    assert_eq!(run.history[0].kept, KeptFields::Predicted);
    assert_eq!(step(&mut run, SimpleEvent::Measured(within(false))), SimpleAction::Finish);
    assert!(!run.converged);
}

#[test]
fn keeps_the_last_usable_fields() {
    let mut run = SimpleRun::new(4, 1);
    let event = SimpleEvent::Predicted { iterations: 9, finite: false };
    assert_eq!(step(&mut run, event), SimpleAction::Finish);
    assert_eq!(run.history[0].kept, KeptFields::Previous);
    assert_eq!(run.history[0].momentum_linear_iterations, 9);
    assert_eq!(run.total_momentum_linear_iterations, 0);

    let mut run = SimpleRun::new(4, 1);
    step(&mut run, SimpleEvent::Predicted { iterations: 9, finite: true });
    step(&mut run, SimpleEvent::Balanced { finite: true, within: false });
    step(&mut run, SimpleEvent::PressureSolved { iterations: 2 });
    assert_eq!(step(&mut run, SimpleEvent::Corrected { finite: false }), SimpleAction::Finish);
    assert_eq!(run.history[0].kept, KeptFields::Predicted);
    assert!(!run.history[0].pressure_correction_accepted);
}

#[test]
fn tells_a_breakdown_from_a_failure() {
    let breakdown = || {
        MeshError::InvalidInput("conjugate-gradient denominator is zero at iteration 1".to_string())
    };
    let failure = || MeshError::InvalidInput("no diagonal".to_string());
    assert!(is_pressure_correction_breakdown(&breakdown()));
    assert!(!is_pressure_correction_breakdown(&failure()));

    let at_pressure = || {
        let mut run = SimpleRun::new(4, 1);
        step(&mut run, SimpleEvent::Predicted { iterations: 1, finite: true });
        step(&mut run, SimpleEvent::Balanced { finite: true, within: false });
        run
    };
    let mut run = at_pressure();
    let event = SimpleEvent::PressureFailed { error: breakdown() };
    assert_eq!(step(&mut run, event), SimpleAction::Finish);
    assert_eq!(run.history[0].kept, KeptFields::Predicted);
    let mut run = at_pressure();
    let error = run.advance(SimpleEvent::PressureFailed { error: failure() }).expect_err("error");
    assert_eq!(
        error.to_string(),
        "laminar SIMPLE pressure correction solve failed: no diagonal"
    );
}

#[test]
fn does_not_converge_before_the_smallest_number_of_iterations() {
    assert!(!laminar_simple_converged(1, 2, &within(true)));
    assert!(laminar_simple_converged(2, 2, &within(true)));
    assert!(!laminar_simple_converged(2, 2, &within(false)));
    let mut measures = within(true);
    measures.momentum_residual_within = Some(false);
    assert!(!laminar_simple_converged(2, 2, &measures));
}

fn options() -> LaminarSimpleOptions {
    LaminarSimpleOptions {
        density: number(1.0),
        dynamic_viscosity: number(1.0),
        pressure_drop: number(1.0),
        length: number(1.0),
        diameter: number(1.0),
        inlet_patch: "inlet".to_string(),
        outlet_patch: "outlet".to_string(),
        linear_solver: LaminarSimpleLinearSolver::Cg,
        momentum_linear_solver: LaminarSimpleLinearSolver::Cg,
        pressure_linear_solver: LaminarSimpleLinearSolver::Cg,
        momentum_preconditioner: LaminarSimplePreconditioner::Absent,
        pressure_preconditioner: LaminarSimplePreconditioner::Absent,
        linear_tolerance: number(1.0e-10),
        max_linear_iterations: 100,
        momentum_linear_tolerance: number(1.0e-10),
        pressure_linear_tolerance: number(1.0e-10),
        momentum_max_linear_iterations: 100,
        pressure_max_linear_iterations: 100,
        max_simple_iterations: 3,
        min_simple_iterations: 1,
        simple_tolerance: number(1.0e-12),
        pressure_drop_tolerance: number(1.0),
        field_change_tolerance: number(1.0),
        momentum_residual_control: None,
        pressure_residual_control: None,
        velocity_relaxation: number(0.7),
        pressure_relaxation: number(0.3),
    }
}

#[test]
fn checks_the_settings_of_a_run() {
    assert!(validate_laminar_simple_options(&options()).is_ok());
    let message = |change: fn(&mut LaminarSimpleOptions)| {
        let mut changed = options();
        change(&mut changed);
        validate_laminar_simple_options(&changed).expect_err("refused").to_string()
    };
    assert_eq!(
        message(|options| options.density = number(0.0)),
        "laminar SIMPLE density must be positive and finite, got 0"
    );
    assert_eq!(
        message(|options| options.max_linear_iterations = 0),
        "laminar SIMPLE iteration limits must be greater than zero"
    );
    assert_eq!(
        message(|options| options.min_simple_iterations = 4),
        "laminar SIMPLE minSimpleIterations must not exceed maxSimpleIterations, got 4 > 3"
    );
    assert_eq!(
        message(|options| options.momentum_linear_tolerance = number(-1.0)),
        "laminar SIMPLE momentum linear tolerance must be non-negative and finite, got -1"
    );
    assert_eq!(
        message(|options| options.momentum_residual_control = Some(number(-1.0))),
        "laminar SIMPLE U residualControl must be non-negative and finite, got -1"
    );
    assert_eq!(
        message(|options| options.pressure_relaxation = number(1.5)),
        "laminar SIMPLE pressure relaxation must be in (0, 1], got 1.5"
    );
    assert_eq!(
        message(|options| options.inlet_patch = " ".to_string()),
        "laminar SIMPLE inlet and outlet patch names must not be empty"
    );
    assert!(validate_solver_preconditioner(
        "pressure",
        LaminarSimpleLinearSolver::Pcg,
        LaminarSimplePreconditioner::Diagonal
    )
    .is_ok());
    assert!(validate_solver_preconditioner(
        "pressure",
        LaminarSimpleLinearSolver::Jacobi,
        LaminarSimplePreconditioner::Diagonal
    )
    .is_err());
}

fn mesh() -> SolverRuntimeMeshData<(), ()> {
    SolverRuntimeMeshData {
        points: 0,
        cells: 2,
        faces: 3,
        internal_faces: 1,
        boundary_faces: 2,
        owner: vec![0, 0, 1],
        neighbour: vec![Some(1), None, None],
        patches: vec![
            SolverRuntimePatchRange {
                name: "inlet".to_string(),
                patch_type: "patch".to_string(),
                start_face: 0,
                faces: 2,
            },
            SolverRuntimePatchRange {
                name: "outlet".to_string(),
                patch_type: "wedge".to_string(),
                start_face: 2,
                faces: 1,
            },
        ],
        face_centres: vec![(); 3],
        face_area_vectors: vec![(); 3],
        cell_centres: vec![(); 2],
        cell_volumes: vec![(); 2],
        min_face_area: (),
        max_face_area: (),
        min_cell_volume: (),
        max_cell_volume: (),
        total_cell_volume: (),
        non_positive_cell_volumes: 0,
    }
}

#[test]
fn checks_the_mesh_of_a_run() {
    assert!(validate_runtime_mesh(&mesh()).is_ok());
    assert!(check_sizes(&mesh()).is_ok() && check_faces(&mesh()).is_ok());
    let mut short = mesh();
    short.face_centres.pop();
    assert_eq!(
        validate_runtime_mesh(&short).expect_err("faces").to_string(),
        "runtime mesh face arrays are inconsistent"
    );
    assert!(check_sizes(&short).is_err());
    let mut beyond = mesh();
    beyond.neighbour[0] = Some(2);
    assert_eq!(
        validate_runtime_mesh(&beyond).expect_err("cells").to_string(),
        "runtime mesh face 0 neighbour 2 exceeds cell count 2"
    );
    assert!(check_faces(&beyond).is_err());
    assert!(check_patches(&mesh().patches, 3).is_ok());
    assert_eq!(
        check_patches(&mesh().patches, 2).expect_err("patch").to_string(),
        "patch 'outlet' face range 2..3 exceeds mesh faces 2"
    );
}

#[test]
fn finds_the_boundary_faces_of_a_patch() {
    assert_eq!(patch_boundary_faces(&mesh(), "inlet"), Some(vec![1]));
    assert_eq!(patch_boundary_faces(&mesh(), "none"), None);
    let mut inner = mesh();
    inner.patches[0].faces = 1;
    assert_eq!(patch_boundary_faces(&inner, "inlet"), None);
}

#[test]
fn checks_the_arguments_of_the_operators() {
    assert!(check_momentum_system(2, 3, 3, 2, 3).is_ok());
    assert_eq!(
        check_momentum_system(2, 3, 2, 2, 3).expect_err("flux").to_string(),
        "momentum flux has 2 values, expected 3 mesh faces"
    );
    assert_eq!(
        check_momentum_system(2, 3, 3, 1, 3).expect_err("source").to_string(),
        "momentum component source has 1 values, expected 2 mesh cells"
    );
    assert_eq!(
        check_variable_system(2, 3, 2, &Some((1, number(0.0))), 2, 3)
            .expect_err("value")
            .to_string(),
        "variable scalar component diffusivity value for cell 1 must be positive and finite, got 0"
    );
    assert_eq!(
        check_correction_flux(2, 3, 1, 2, &None, 3).expect_err("values").to_string(),
        "pressure correction flux expected 2 cell values, got 1"
    );
    assert_eq!(
        check_relaxation(2, 1, &number(0.5)).expect_err("values").to_string(),
        "equation relaxation expected old solution with 2 entries, got 1"
    );
    assert_eq!(
        check_relaxation(2, 2, &number(0.0)).expect_err("factor").to_string(),
        "equation relaxation factor must be in (0, 1], got 0"
    );
    assert_eq!(
        check_same_faces(3, 2).expect_err("faces").to_string(),
        "face flux arrays have different lengths: 3 and 2"
    );
    assert_eq!(
        check_face_size(4, &number(0.0), false, &number(1.0), true).expect_err("area").to_string(),
        "face 4 has non-positive area magnitude 0"
    );
    assert_eq!(
        check_mass_flux(4, &number(f64::INFINITY)).expect_err("flux").to_string(),
        "momentum face 4 mass flux must be finite, got inf"
    );
    assert_eq!(
        cell_error("momentum diagonal", 1, &number(-2.0)).to_string(),
        "momentum diagonal for cell 1 must be positive and finite, got -2"
    );
}

#[test]
fn takes_vectors_apart_and_puts_them_together() {
    let vectors = vec![(1, 2, 3), (4, 5, 6)];
    let (x, y, z) = split_components(&vectors);
    assert_eq!((x.clone(), y.clone(), z.clone()), (vec![1, 4], vec![2, 5], vec![3, 6]));
    assert_eq!(combine_components(&x, &y, &z), vectors);
    assert_eq!(combine_components(&x, &vec![9], &z), vec![(1, 9, 3)]);
    assert_eq!(component_value((7, 8, 9), Component::Y), 8);
    assert_eq!(component_name(Component::Z), "Uz");
    let boundary = vec![
        FaceBoundaryTreatment::FixedValue((1, 2, 3)),
        FaceBoundaryTreatment::ZeroGradient,
        FaceBoundaryTreatment::Constraint,
    ];
    let parts = scalar_component_boundary(&boundary, Component::Z);
    assert!(matches!(parts[0], FaceBoundaryTreatment::FixedValue(3)));
    assert!(matches!(parts[1], FaceBoundaryTreatment::ZeroGradient));
    assert!(matches!(parts[2], FaceBoundaryTreatment::Constraint));
    assert_eq!(
        momentum_failure(Component::X, &MeshError::InvalidInput("bad".to_string())).to_string(),
        "laminar SIMPLE momentum component Ux solve failed: bad"
    );
}

fn patch(name: &str, patch_type: Option<&str>, value: Option<FieldValueSummary>) -> FieldBoundaryPatch {
    FieldBoundaryPatch {
        name: name.to_string(),
        patch_type: patch_type.map(str::to_string),
        value,
    }
}

fn field(inlet: FieldBoundaryPatch) -> FieldFile {
    FieldFile {
        path: "0/U".to_string(),
        region: None,
        name: "U".to_string(),
        class_name: Some("volVectorField".to_string()),
        dimensions: None,
        internal_field: None,
        boundary_patches: vec![inlet, patch("outlet", Some("zeroGradient"), None)],
    }
}

#[test]
fn treats_faces_as_their_patches_say() {
    let mut known = Readings::new();
    known.list("0".to_string(), number(0.0));
    let loaded = vec![None, None];
    let walls = field(patch("inlet", Some("noSlip"), None));
    let found = face_treatments(&known, FlowField::Velocity, &mesh(), &walls, &loaded)
        .expect("treatments");
    assert!(matches!(found[1], FaceBoundaryTreatment::FixedValue(FlowValue::AtRest)));
    assert!(matches!(found[2], FaceBoundaryTreatment::Constraint));
    let corrections = pressure_correction_treatments(&found, FlowValue::AtRest);
    assert_eq!(corrections.len(), 3);
    let summary = summarize_boundaries(&mesh(), &found, &found);
    assert_eq!(summary.velocity_fixed_value_faces, 1);
    assert_eq!(summary.velocity_constraint_faces, 1);
    assert_eq!(summary.pressure_fixed_value_faces, 1);

    let refused = |inlet: FieldBoundaryPatch| {
        face_treatments(&known, FlowField::Velocity, &mesh(), &field(inlet), &loaded)
            .expect_err("refused")
            .to_string()
    };
    assert_eq!(
        refused(patch("inlet", Some("slip"), None)),
        "laminar SIMPLE U patch 'inlet' uses unsupported boundary type 'slip'"
    );
    assert_eq!(
        refused(patch("inlet", None, None)),
        "laminar SIMPLE U patch 'inlet' has no boundary type"
    );
}

#[test]
fn reads_the_values_of_a_patch() {
    let mut known = Readings::new();
    known.list("1".to_string(), number(1.0));
    known.list("0".to_string(), number(0.0));
    let uniform =
        patch("inlet", Some("fixedValue"), Some(FieldValueSummary::Uniform("(1 0 0)".to_string())));
    match parse_patch_numeric_values(&known, "U", &uniform, None, 3, 2).expect("values") {
        FixedValues::Uniform(values) => {
            assert_eq!(values.len(), 3);
            assert_eq!(values[0].display, "1");
        }
        other => panic!("unexpected values: {other:?}"),
    }
    let missing = patch("inlet", Some("fixedValue"), None);
    assert!(parse_patch_numeric_values(&known, "U", &missing, None, 3, 2).is_err());
}

#[test]
fn finds_fields_and_their_buffers() {
    let set = InitialFieldSet {
        case_dir: "case".to_string(),
        fields: vec![field(patch("inlet", None, None))],
    };
    assert_eq!(find_field(&set, "U", "volVectorField").expect("field"), 0);
    assert_eq!(
        find_field(&set, "p", "volScalarField").expect_err("field").to_string(),
        "field 'p' was not found below case/0"
    );
    assert_eq!(
        find_field(&set, "U", "volScalarField").expect_err("class").to_string(),
        "field 'U' has class 'volVectorField', expected 'volScalarField'"
    );
    let buffers = vec![SolverRuntimeFieldPlan {
        region: None,
        name: "U".to_string(),
        kind: SolverStateFieldKind::VolVector,
        components: 3,
        scalar_slots: 6,
        bytes_f64: 48,
        values: 6,
    }];
    assert_eq!(runtime_field(&buffers, 2, "U", 3).expect("buffer"), 0);
    assert_eq!(
        runtime_field(&buffers, 3, "U", 3).expect_err("length").to_string(),
        "runtime field 'U' has 6 scalars, expected 9"
    );
    assert_eq!(
        runtime_field(&buffers, 2, "p", 1).expect_err("buffer").to_string(),
        "runtime field 'p' with 1 components was not materialized"
    );
}

#[test]
fn solves_in_steps() {
    assert_eq!(next_step(0, 5, true), SolveStep::Converged(0));
    assert!(matches!(next_step(2, 5, false), SolveStep::Iterate(_)));
    assert_eq!(next_step(5, 5, false), SolveStep::Exhausted(5));
    let matrix =
        CsrMatrix::from_rows(vec![vec![(0, 4), (1, 1)], vec![(1, 2)]], 2).expect("matrix");
    assert_eq!(matrix.diagonal().expect("diagonal"), vec![4, 2]);
    assert_eq!(matrix.on_diagonal(), vec![true, false, true]);
    let relaxed = matrix.with_values(vec![8, 1, 4]);
    assert_eq!(relaxed.diagonal().expect("diagonal"), vec![8, 4]);
    assert_eq!(relaxed.col_indices(), matrix.col_indices());
    assert!(validate_iterative_solve_input(&matrix, 2, Some(2), &number(0.0)).is_ok());
    assert!(validate_iterative_solve_input(&matrix, 1, None, &number(0.0)).is_err());
    assert!(validate_iterative_solve_input(&matrix, 2, Some(3), &number(0.0)).is_err());
    assert!(validate_iterative_solve_input(&matrix, 2, None, &number(-1.0)).is_err());
    let hollow = CsrMatrix::from_rows(vec![vec![(1, 4)], vec![(1, 2)]], 2).expect("matrix");
    assert_eq!(
        hollow.diagonal().expect_err("diagonal").to_string(),
        "row 0 has no diagonal entry"
    );
}
