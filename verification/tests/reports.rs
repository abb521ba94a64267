//! Reports of a run, their plot, and the fields that it leaves behind.

use ferrum::benchmark_args::{PipeBenchmarkArgs, PlaneChannelBenchmarkArgs};
use ferrum::benchmark_report::{
    channel_benchmark_json, channel_benchmark_markdown, channel_result, pipe_benchmark_json,
    pipe_benchmark_markdown, pipe_result,
};
use ferrum::fields::{parse_field_file_str, FieldValueSummary};
use ferrum::flow::{
    parse_openfoam_laminar_preconditioner, parse_openfoam_laminar_solver, FlowBoundarySummary,
    LaminarSimpleLinearSolver, LaminarSimplePreconditioner,
};
use ferrum::foam_field::{
    check_final_fields, escape_openfoam_string, openfoam_nonuniform_components,
    openfoam_output_location, openfoam_scalar_field, openfoam_vector_field, OutputField,
    OutputPatch, OutputValue,
};
use ferrum::plot::{read_plot_rows, residual_plot_svg, wants_svg, IterationTick, PlotPoint, PowerTick};
use ferrum::poiseuille::{
    parse_pipe_axis, patch_owner_cells, pipe_axis_name, validate_hagen_poiseuille_inputs,
    LaminarPipeBenchmarkOptions, LaminarPipeBenchmarkSummary,
    LaminarPlaneChannelBenchmarkOptions, LaminarPlaneChannelBenchmarkSummary, PipeAxis,
};
use ferrum::reals::{Readings, Real, RealKind};
use ferrum::runtime::SolverRuntimeMeshData;
use ferrum::schemes::{
    parse_laminar_simple_convection_scheme, parse_laminar_simple_gradient_scheme,
    parse_laminar_simple_interpolation_scheme, parse_laminar_simple_laplacian_scheme,
    parse_laminar_simple_sn_grad_scheme, LaminarSimpleConvectionScheme,
    LaminarSimpleGradientScheme, LaminarSimpleInterpolationScheme, LaminarSimpleLaplacianScheme,
    LaminarSimpleSchemes, LaminarSimpleSnGradScheme,
};
use ferrum::simple::{
    residual_control_state, ContinuitySummary, FlowOperatorSummary, LaminarSimpleFieldSummary,
    LaminarSimpleIterationSummary, LaminarSimpleOptions, LaminarSimpleReport,
    LaminarSimpleResidualControlSummary, LaminarSimpleStopReason, LinearSolveSummary,
    ScalarDiagnosticSummary, VectorDiagnosticSummary,
};
use ferrum::simple_json::laminar_simple_report_json;
use ferrum::simple_text::{
    convergence_feedback, governing_estimate, laminar_simple_report_markdown,
    laminar_simple_residual_csv, ConvergenceRatioEstimate, ResidualTrend,
};

fn number(value: f64) -> Real {
    let kind = if !value.is_finite() {
        RealKind::NotFinite
    } else if value < 0.0 {
        RealKind::Negative
    } else if value == 0.0 {
        RealKind::Zero
    } else if value <= 1.0 {
        RealKind::UpToOne
    } else {
        RealKind::AboveOne
    };
    Real {
        kind,
        display: format!("{value}"),
        scientific: format!("{value:.6e}"),
        percent: format!("{:.3}%", value * 100.0),
        full: if value == 0.0 { "0".to_string() } else { format!("{value:.16e}") },
    }
}

fn space_end(text: &[u8], mut at: usize) -> usize {
    while at < text.len() && b" \n\r\t".contains(&text[at]) {
        at += 1;
    }
    at
}

fn string_end(text: &[u8], mut at: usize) -> Option<usize> {
    if text.get(at) != Some(&b'"') {
        return None;
    }
    at += 1;
    while at < text.len() {
        match text[at] {
            b'"' => return Some(at + 1),
            b'\\' if text.get(at + 1) == Some(&b'u') => {
                if !text.get(at + 2..at + 6)?.iter().all(u8::is_ascii_hexdigit) {
                    return None;
                }
                at += 6;
            }
            b'\\' => {
                if !b"\"\\/bfnrt".contains(text.get(at + 1)?) {
                    return None;
                }
                at += 2;
            }
            code if code < 0x20 => return None,
            _ => at += 1,
        }
    }
    None
}

/// Where the JSON value at `at` ends.
fn value_end(text: &[u8], at: usize) -> Option<usize> {
    for word in ["null", "true", "false"] {
        if text[at..].starts_with(word.as_bytes()) {
            return Some(at + word.len());
        }
    }
    let close = match *text.get(at)? {
        b'"' => return string_end(text, at),
        b'{' => b'}',
        b'[' => b']',
        _ => {
            let length = text[at..].iter().take_while(|ch| b"+-.0123456789eE".contains(ch)).count();
            let digits = text[at..at + length].iter().filter(|ch| ch.is_ascii_digit()).count();
            return if digits > 0 { Some(at + length) } else { None };
        }
    };
    let mut end = space_end(text, at + 1);
    if text.get(end) == Some(&close) {
        return Some(end + 1);
    }
    loop {
        end = space_end(text, end);
        if close == b'}' {
            end = space_end(text, string_end(text, end)?);
            if text.get(end) != Some(&b':') {
                return None;
            }
            end = space_end(text, end + 1);
        }
        end = space_end(text, value_end(text, end)?);
        match *text.get(end)? {
            b',' => end += 1,
            code if code == close => return Some(end + 1),
            _ => return None,
        }
    }
}

fn is_json(text: &str) -> bool {
    let text = text.as_bytes();
    match value_end(text, space_end(text, 0)) {
        Some(end) => space_end(text, end) == text.len(),
        None => false,
    }
}

fn readings(content: &str) -> Readings {
    let mut found = Readings::new();
    for text in content.split(|ch: char| ch == ',' || ch.is_whitespace()) {
        if let Ok(value) = text.parse::<f64>() {
            found.list(text.to_string(), number(value));
        }
    }
    found
}

fn control(configured: bool, checked: bool, satisfied: bool) -> LaminarSimpleResidualControlSummary {
    LaminarSimpleResidualControlSummary {
        configured,
        checked,
        satisfied,
        momentum_satisfied: None,
        pressure_satisfied: None,
    }
}

fn continuity(l2_norm: f64) -> ContinuitySummary {
    ContinuitySummary {
        l2_norm: number(l2_norm),
        max_abs: number(0.0),
        sum_abs: number(0.0),
        global_sum: number(0.0),
    }
}

fn zeros() -> [Real; 3] {
    [number(0.0), number(0.0), number(0.0)]
}

fn iteration(at: usize, after: f64, momentum: f64, pressure: f64) -> LaminarSimpleIterationSummary {
    LaminarSimpleIterationSummary {
        iteration: at,
        continuity_before: continuity(after * 2.0),
        continuity_after: continuity(after),
        pressure_correction_accepted: true,
        momentum_linear_iterations: 4,
        momentum_linear_converged: true,
        momentum_component_linear_converged: [true, true, true],
        pressure_linear_iterations: 5,
        pressure_linear_converged: false,
        pressure_linear_solves: 1,
        pressure_linear_non_converged_solves: 0,
        momentum_initial_normalized_residual_norm: number(momentum),
        momentum_residual_norm: number(0.0),
        momentum_normalized_residual_norm: number(momentum),
        momentum_component_initial_normalized_residual_norms: zeros(),
        momentum_component_residual_norms: zeros(),
        momentum_component_normalized_residual_norms: zeros(),
        momentum_diagonal_min: number(0.0),
        momentum_diagonal_max: number(0.0),
        momentum_h1_min: number(0.0),
        momentum_h1_max: number(0.0),
        pressure_correction_initial_normalized_residual_norm: number(pressure),
        pressure_correction_residual_norm: number(0.0),
        pressure_correction_normalized_residual_norm: number(pressure),
        residual_control: control(true, true, false),
        relative_velocity_change_l2: number(0.25),
        relative_pressure_change_l2: number(0.125),
        momentum_update_scale: number(0.0),
        pressure_correction_update_scale: number(0.0),
        adjust_phi_global_flux_before: number(0.0),
        adjust_phi_global_flux_after: number(0.0),
        adjust_phi_adjusted_faces: 0,
    }
}

fn report(history: Vec<LaminarSimpleIterationSummary>) -> LaminarSimpleReport {
    LaminarSimpleReport {
        cells: 2,
        faces: 3,
        internal_faces: 1,
        boundary_faces: 2,
        simple_iterations: history.len(),
        converged: false,
        stop_reason: LaminarSimpleStopReason::MaxIterationsReached,
        residual_control: control(true, true, false),
        linear_solve_summary: LinearSolveSummary {
            momentum_predictors: 2,
            momentum_non_converged_predictors: 0,
            momentum_component_solves: 6,
            momentum_component_non_converged_solves: 0,
            pressure_correction_solves: 2,
            pressure_correction_non_converged_solves: 0,
            max_momentum_linear_iterations_per_simple: 4,
            max_pressure_linear_iterations_per_simple: 5,
            average_momentum_linear_iterations_per_simple: number(4.0),
            average_pressure_linear_iterations_per_simple: number(5.0),
            final_momentum_linear_converged: true,
            final_pressure_linear_converged: false,
        },
        initial_continuity: continuity(1.0),
        final_continuity: continuity(0.5),
        final_momentum_initial_normalized_residual_norm: number(0.1),
        final_momentum_residual_norm: number(0.0),
        final_momentum_normalized_residual_norm: number(0.1),
        final_pressure_correction_initial_normalized_residual_norm: number(0.2),
        final_pressure_correction_residual_norm: number(0.0),
        final_pressure_correction_normalized_residual_norm: number(0.2),
        total_momentum_linear_iterations: 8,
        total_pressure_linear_iterations: 10,
        operator_summary: FlowOperatorSummary {
            phi_min: number(0.0),
            phi_max: number(0.0),
            phi_sum_abs: number(0.0),
            grad_p_l2_norm: number(0.0),
            hby_a_l2_norm: number(0.0),
            div_phi_u_l2_norm: number(0.0),
        },
        boundary_summary: FlowBoundarySummary {
            velocity_fixed_value_faces: 1,
            velocity_zero_gradient_faces: 1,
            velocity_inlet_outlet_faces: 0,
            velocity_constraint_faces: 0,
            pressure_fixed_value_faces: 1,
            pressure_zero_gradient_faces: 1,
            pressure_constraint_faces: 0,
        },
        pressure_assembly: None,
        fields: LaminarSimpleFieldSummary {
            velocity: VectorDiagnosticSummary {
                min_magnitude: number(0.0),
                max_magnitude: number(0.0),
                l2_norm: number(0.0),
                x_min: number(0.0),
                x_max: number(0.0),
                y_min: number(0.0),
                y_max: number(0.0),
                z_min: number(0.0),
                z_max: number(0.0),
            },
            pressure: ScalarDiagnosticSummary {
                min: number(0.0),
                max: number(0.0),
                l2_norm: number(0.0),
                sum: number(0.0),
                sum_abs: number(0.0),
            },
        },
        history,
    }
}

fn schemes() -> LaminarSimpleSchemes {
    LaminarSimpleSchemes {
        grad_p: LaminarSimpleGradientScheme::GaussLinear,
        grad_u: LaminarSimpleGradientScheme::GaussLinear,
        div_phi_u: LaminarSimpleConvectionScheme::GaussUpwind,
        laplacian: LaminarSimpleLaplacianScheme::GaussLinearCorrected,
        interpolation: LaminarSimpleInterpolationScheme::Linear,
        sn_grad: LaminarSimpleSnGradScheme::Corrected,
    }
}

fn options() -> LaminarSimpleOptions {
    LaminarSimpleOptions {
        density: number(1000.0),
        dynamic_viscosity: number(0.001),
        linear_solver: LaminarSimpleLinearSolver::Cg,
        momentum_linear_solver: LaminarSimpleLinearSolver::Cg,
        pressure_linear_solver: LaminarSimpleLinearSolver::Cg,
        momentum_preconditioner: LaminarSimplePreconditioner::Absent,
        pressure_preconditioner: LaminarSimplePreconditioner::Absent,
        linear_tolerance: number(1.0e-10),
        max_linear_iterations: 10_000,
        momentum_linear_tolerance: number(1.0e-10),
        pressure_linear_tolerance: number(1.0e-10),
        momentum_max_linear_iterations: 10_000,
        pressure_max_linear_iterations: 10_000,
        max_simple_iterations: 2,
        min_simple_iterations: 1,
        momentum_residual_control: Some(number(1.0e-5)),
        pressure_residual_control: Some(number(1.0e-5)),
        pressure_reference_cell: None,
        pressure_reference_value: number(0.0),
        non_orthogonal_correctors: 0,
        simple_consistent: false,
        velocity_relaxation: number(0.7),
        pressure_relaxation: number(0.3),
        schemes: schemes(),
    }
}

#[test]
fn names_the_state_of_the_residual_control() {
    assert_eq!(residual_control_state(&control(false, true, true)), "not-configured");
    assert_eq!(residual_control_state(&control(true, false, true)), "not-checked");
    assert_eq!(residual_control_state(&control(true, true, true)), "satisfied");
    assert_eq!(residual_control_state(&control(true, true, false)), "not-satisfied");
}

#[test]
fn plots_the_iterations_of_the_report() {
    let csv = laminar_simple_residual_csv(&report(vec![
        iteration(1, 0.5, 0.01, 0.02),
        iteration(2, f64::NAN, 0.001, 0.002),
        iteration(3, 0.25, 0.0001, 0.0002),
    ]));
    let lines: Vec<&str> = csv.lines().collect();
    assert_eq!(lines.len(), 4);
    assert!(lines[0].starts_with("iteration,continuityBeforeL2,continuityAfterL2,"));
    assert_eq!(
        lines[1],
        "1,1,0.5,0.01,0.01,0,0.02,0.02,0,true,true,false,true,4,true,5,false,0.25,0.125"
    );
    let rows = read_plot_rows(&readings(&csv), &csv).expect("rows");
    assert_eq!(rows.len(), 2);
    assert_eq!(rows[0].iteration.display, "1");
    assert_eq!(rows[0].continuity.display, "0.5");
    assert_eq!(rows[1].momentum.display, "0.0001");
    assert_eq!(rows[1].pressure.display, "0.0002");
    assert_eq!(
        read_plot_rows(&Readings::new(), &csv).expect_err("rows"),
        "no residual history rows in CSV"
    );
    assert!(wants_svg(&Some("SVG".to_string())));
    assert!(!wants_svg(&Some("png".to_string())) && !wants_svg(&None));
}

#[test]
fn draws_the_plot() {
    let svg = residual_plot_svg(
        &vec![PlotPoint {
            x: "1.000".to_string(),
            momentum_y: "2.000".to_string(),
            pressure_y: "3.000".to_string(),
            continuity_y: "4.000".to_string(),
        }],
        &vec![PowerTick { power: -3, y: "5.000".to_string(), label_y: "6.000".to_string() }],
        &vec![IterationTick {
            label: "1".to_string(),
            x: "7.000".to_string(),
            label_x: "8.000".to_string(),
        }],
    );
    assert!(svg.contains("<svg"));
    assert!(svg.contains("1.000,2.000"));
    assert!(svg.contains("1.000,3.000"));
    assert!(svg.contains("1.000,4.000"));
    assert!(svg.trim_end().ends_with("</svg>"));
}

#[test]
fn writes_the_report() {
    let run = report(vec![iteration(1, 1.0, 0.01, 0.01), iteration(2, 0.5, 0.005, 0.005)]);
    let json = laminar_simple_report_json("case \"a\"", &options(), &run, &number(1.5));
    assert!(json.starts_with("{\n  \"caseDir\": \"case \\\"a\\\"\",\n  \"solver\": \"laminarSimple\",\n  \"backend\": \"cpu\",\n"));
    assert!(json.contains("  \"mesh\": {\n    \"cells\": 2,\n    \"faces\": 3,\n    \"internalFaces\": 1,\n    \"boundaryFaces\": 2\n  },\n"));
    assert_eq!(json.matches('{').count(), json.matches('}').count());
    assert_eq!(json.matches('[').count(), json.matches(']').count());
    assert!(is_json(&json));
    let mut broken = options();
    broken.density = number(f64::NAN);
    broken.pressure_reference_cell = Some(9_007_199_254_740_993);
    let json = laminar_simple_report_json("case", &broken, &run, &number(-0.0));
    assert!(json.contains("\"pressureReferenceCell\": 9007199254740992,\n"));
    assert!(json.contains("\"density\": \"NaN\""));
    assert!(is_json(&json));
    let markdown = laminar_simple_report_markdown("case", &options(), &run, &number(1.5));
    assert!(markdown.starts_with("# Laminar SIMPLE Report\n\nCase: `case`\n\n## Inputs\n\n| Quantity | Value |\n| --- | ---: |\n| Density [kg/m3] | 1.000000e3 |\n"));
}

#[test]
fn tells_why_a_run_did_not_converge() {
    let run = report(vec![iteration(1, 1.0, 0.01, 0.01), iteration(2, 0.5, 0.005, 0.005)]);
    let trend = ResidualTrend {
        momentum: Some(number(0.5)),
        pressure: Some(number(0.5)),
        continuity: None,
    };
    let estimate = governing_estimate(
        &options(),
        Some(ConvergenceRatioEstimate {
            additional_iterations: 9,
            geometric_ratio: "0.5000".to_string(),
        }),
        Some(ConvergenceRatioEstimate {
            additional_iterations: 10,
            geometric_ratio: "0.6000".to_string(),
        }),
    );
    assert_eq!(estimate.as_ref().map(|found| found.additional_iterations), Some(10));
    let lines = convergence_feedback(&run, &options(), &trend, &estimate).into_parts();
    assert_eq!(lines[0], "laminarSimple convergence note: iteration budget reached (2).");
    assert!(lines[1].starts_with("  last-iteration trend (iter 1 -> 2): momentum "));
    assert!(lines[3].starts_with(
        "  trend estimate: if current geometric decay persists, add about 10 SIMPLE iteration(s)"
    ));
    let mut converged = report(Vec::new());
    converged.converged = true;
    assert!(convergence_feedback(&converged, &options(), &trend, &None).into_parts().is_empty());
    let mut stopped = report(Vec::new());
    stopped.stop_reason = LaminarSimpleStopReason::MomentumSolverInvalidState;
    assert_eq!(
        convergence_feedback(&stopped, &options(), &trend, &None).into_parts(),
        vec!["laminarSimple convergence note: momentum equation linear solve entered invalid state."]
    );
}

fn output_field(value: Option<OutputValue>) -> OutputField {
    OutputField {
        class_name: None,
        dimensions: None,
        boundary_patches: vec![OutputPatch {
            name: "inlet".to_string(),
            patch_type: Some("fixedValue".to_string()),
            inlet_value: None,
            value,
        }],
    }
}

#[test]
fn writes_fields_that_it_reads() {
    let values = vec![("1".to_string(), "0".to_string(), "0".to_string()); 2];
    let field = output_field(Some(OutputValue::Uniform(" (1 0 0) ".to_string())));
    let content = openfoam_vector_field(&field, "100", &values).expect("content");
    assert_eq!(
        content,
        "FoamFile\n{\n    version 2.0;\n    format ascii;\n    class volVectorField;\n    location \"100\";\n    object U;\n}\n\ndimensions [0 1 -1 0 0 0 0];\n\ninternalField nonuniform List<vector>\n2\n(\n    (1 0 0)\n    (1 0 0)\n);\n\nboundaryField\n{\n    inlet\n    {\n        type fixedValue;\n        value uniform (1 0 0);\n    }\n}\n"
    );
    let read = parse_field_file_str(&content, "100/U", None).expect("field");
    assert_eq!(read.name, "U");
    assert_eq!(read.class_name.as_deref(), Some("volVectorField"));
    assert_eq!(read.dimensions.expect("dimensions").len(), 7);
    assert!(matches!(
        read.internal_field,
        Some(FieldValueSummary::NonUniform { value_type: Some(_), count: Some(2) })
    ));
    assert_eq!(read.boundary_patches[0].patch_type.as_deref(), Some("fixedValue"));

    let nonuniform = |value_type: Option<&str>, count: Option<usize>, values: Option<Vec<String>>| {
        let value = OutputValue::NonUniform {
            value_type: value_type.map(str::to_string),
            count,
            values,
        };
        openfoam_scalar_field(&output_field(Some(value)), "1", &vec!["3".to_string()])
    };
    let listed = nonuniform(Some("List<scalar>"), None, Some(vec!["7".to_string(), "8".to_string()]))
        .expect("content");
    assert!(listed.contains(
        "        value nonuniform List<scalar>\n        2\n        (\n            7\n            8\n        );\n"
    ));
    assert_eq!(
        nonuniform(None, None, None).expect_err("type"),
        "boundary entry 'value' has nonuniform data without a value type"
    );
    assert_eq!(
        nonuniform(Some("List<tensor>"), None, None).expect_err("type"),
        "boundary entry 'value' uses unsupported nonuniform type 'List<tensor>'"
    );
    assert_eq!(
        nonuniform(Some("List<scalar>"), None, None).expect_err("values"),
        "boundary entry 'value' has nonuniform List<scalar> data without loaded numeric values"
    );
    assert_eq!(
        nonuniform(Some("List<vector>"), Some(2), Some(vec!["7".to_string()])).expect_err("count"),
        "boundary entry 'value' has 1 scalar values, expected 6 for 2 List<vector> entries"
    );
}

#[test]
fn names_places_of_fields() {
    assert_eq!(escape_openfoam_string("a\"b\\c"), "a\\\"b\\\\c");
    assert_eq!(openfoam_output_location("target/fields/100"), "100");
    assert_eq!(openfoam_output_location(".."), "..");
    assert_eq!(openfoam_nonuniform_components("vectorField"), Some(3));
    assert_eq!(openfoam_nonuniform_components("Field<scalar>"), Some(1));
    assert_eq!(openfoam_nonuniform_components("tensorField"), None);
    assert!(check_final_fields(2, 2, 2, true, true).is_ok());
    assert!(check_final_fields(2, 1, 2, true, true).is_err());
    assert!(check_final_fields(2, 2, 2, true, false).is_err());
}

#[test]
fn reads_the_names_that_it_writes() {
    for solver in [
        LaminarSimpleLinearSolver::Cg,
        LaminarSimpleLinearSolver::Jacobi,
        LaminarSimpleLinearSolver::Pcg,
        LaminarSimpleLinearSolver::BiCgStab,
    ] {
        assert_eq!(parse_openfoam_laminar_solver(&solver.to_string()), Ok(solver));
    }
    let diagonal = LaminarSimplePreconditioner::Diagonal;
    assert_eq!(parse_openfoam_laminar_preconditioner(&diagonal.to_string()), Ok(diagonal));
    let found = schemes();
    assert_eq!(
        parse_laminar_simple_gradient_scheme(&found.grad_p.to_string()),
        Ok(found.grad_p)
    );
    for scheme in [
        LaminarSimpleConvectionScheme::GaussUpwind,
        LaminarSimpleConvectionScheme::GaussLinearUpwind,
    ] {
        assert_eq!(parse_laminar_simple_convection_scheme(&scheme.to_string()), Ok(scheme));
    }
    assert_eq!(
        parse_laminar_simple_interpolation_scheme(&found.interpolation.to_string()),
        Ok(found.interpolation)
    );
    for scheme in [
        LaminarSimpleSnGradScheme::Corrected,
        LaminarSimpleSnGradScheme::Orthogonal,
        LaminarSimpleSnGradScheme::Uncorrected,
    ] {
        assert_eq!(parse_laminar_simple_sn_grad_scheme(&scheme.to_string()), Ok(scheme));
        assert_eq!(
            parse_laminar_simple_laplacian_scheme("Gauss linear", scheme)
                .expect("scheme")
                .to_string(),
            format!("Gauss linear {}", scheme.to_string())
        );
    }
    assert!(parse_laminar_simple_laplacian_scheme(
        "Gauss linear limited",
        LaminarSimpleSnGradScheme::Corrected
    )
    .is_err());
}

#[test]
fn reads_axes() {
    for axis in [PipeAxis::X, PipeAxis::Y, PipeAxis::Z] {
        assert_eq!(parse_pipe_axis(pipe_axis_name(axis)), Ok(axis));
    }
    assert!(parse_pipe_axis("w").is_err());
    assert!(validate_hagen_poiseuille_inputs(
        &number(1.0),
        &number(1.0),
        &number(1.0),
        &number(1.0)
    )
    .is_ok());
    assert!(validate_hagen_poiseuille_inputs(
        &number(1.0),
        &number(0.0),
        &number(1.0),
        &number(1.0)
    )
    .is_err());
}

#[test]
fn reports_a_benchmark() {
    let args = PipeBenchmarkArgs {
        case_dir: "c".to_string(),
        fields_dir: "f".to_string(),
        options: LaminarPipeBenchmarkOptions {
            pressure_drop: number(2.0),
            dynamic_viscosity: number(0.001),
            length: number(1.0),
            diameter: number(0.01),
            inlet_patch: "inlet".to_string(),
            outlet_patch: "outlet".to_string(),
            axis: PipeAxis::X,
        },
        out_json: None,
        out_markdown: None,
    };
    let summary = LaminarPipeBenchmarkSummary {
        min_velocity: number(0.005),
        max_velocity: number(0.0075),
        mean_velocity: number(0.00625),
        flow_rate: number(1.0e-6),
        analytic_mean_velocity: number(0.00625),
        analytic_flow_rate: number(1.0e-6),
        pressure_drop_from_mean: number(2.0),
        pressure_drop_from_owner_cells: number(2.0),
        relative_mean_velocity_error: number(0.0),
        relative_pressure_drop_from_mean_error: number(0.0),
        relative_pressure_drop_from_owner_cells_error: number(0.0),
    };
    let json = pipe_benchmark_json(&args, &summary);
    assert!(is_json(&json));
    assert_eq!(json.matches('{').count(), json.matches('}').count());
    assert!(json.contains("0.00625"));
    assert!(pipe_benchmark_markdown(&args, &summary).starts_with("# "));
    assert!(pipe_result(&summary).contains("6.250000e-3"));
}

#[test]
fn reports_a_channel_benchmark() {
    let args = PlaneChannelBenchmarkArgs {
        case_dir: "c\\d".to_string(),
        fields_dir: "f".to_string(),
        options: LaminarPlaneChannelBenchmarkOptions {
            pressure_drop: number(2.0),
            dynamic_viscosity: number(0.001),
            length: number(1.0),
            gap: number(0.01),
            depth: number(0.5),
            inlet_patch: "inlet".to_string(),
            outlet_patch: "outlet".to_string(),
            axis: PipeAxis::Y,
        },
        pressure_scale: number(1000.0),
        out_json: None,
        out_markdown: None,
    };
    let summary = LaminarPlaneChannelBenchmarkSummary {
        min_velocity: number(0.005),
        max_velocity: number(0.0075),
        mean_velocity: number(0.00625),
        flow_rate: number(1.0e-6),
        flow_rate_per_unit_depth: number(2.0e-6),
        analytic_mean_velocity: number(0.00625),
        analytic_flow_rate: number(1.0e-6),
        analytic_flow_rate_per_unit_depth: number(2.0e-6),
        pressure_drop_from_mean: number(2.0),
        pressure_drop_from_owner_cells: number(2.0),
        relative_mean_velocity_error: number(0.0),
        relative_pressure_drop_from_mean_error: number(f64::INFINITY),
        relative_pressure_drop_from_owner_cells_error: number(0.0),
    };
    let json = channel_benchmark_json(&args, &summary);
    assert!(is_json(&json));
    assert!(json.contains("\"pressureScale\": 1000,\n"));
    assert!(json.contains("\"relativePressureDropFromMeanError\": \"inf\""));
    assert!(json.contains("\"axis\": \"y\""));
    assert!(channel_benchmark_markdown(&args, &summary).starts_with("# "));
    assert!(channel_result(&summary).contains("6.250000e-3"));
}

#[test]
fn averages_over_the_owners_of_a_patch() {
    let mesh: SolverRuntimeMeshData<(), ()> = SolverRuntimeMeshData {
        points: 0,
        cells: 2,
        faces: 2,
        internal_faces: 0,
        boundary_faces: 2,
        owner: vec![0, 1],
        neighbour: vec![None, None],
        patches: vec![ferrum::plan::SolverRuntimePatchRange {
            name: "outlet".to_string(),
            patch_type: "patch".to_string(),
            start_face: 1,
            faces: 1,
        }],
        face_centres: Vec::new(),
        face_area_vectors: Vec::new(),
        cell_centres: Vec::new(),
        cell_volumes: Vec::new(),
        min_face_area: (),
        max_face_area: (),
        min_cell_volume: (),
        max_cell_volume: (),
        total_cell_volume: (),
        non_positive_cell_volumes: 0,
    };
    assert_eq!(patch_owner_cells(&mesh, 2, "outlet").expect("cells"), vec![1]);
    assert!(patch_owner_cells(&mesh, 2, "inlet").is_err());
}
