//! Command-line options of the solver and of the benchmarks.

use ferrum::benchmark_args::{parse_pipe_benchmark_args, parse_plane_channel_benchmark_args};
use ferrum::flow::{LaminarSimpleLinearSolver, LaminarSimplePreconditioner};
use ferrum::poiseuille::PipeAxis;
use ferrum::reals::{Readings, Real, RealKind};
use ferrum::solver_args::{option_of, parse_solver_args, ScalarDiffusionLinearSolver};

/// The library's form of a number.
fn number(value: f64) -> Real {
    let kind = if !value.is_finite() {
        RealKind::NotFinite
    } else if value < 0.0 {
        RealKind::Negative
    } else if value == 0.0 {
        RealKind::Zero
    } else if value <= 1.0 {
        RealKind::UpToOne
    } else {
        RealKind::AboveOne
    };
    Real {
        kind,
        display: format!("{value}"),
        scientific: format!("{value:.6e}"),
        percent: format!("{:.3}%", value * 100.0),
        full: if value == 0.0 { "0".to_string() } else { format!("{value:.16e}") },
    }
}

/// The notation of an optional number.
fn shown(value: &Option<Real>) -> Option<String> {
    value.as_ref().map(|inner| inner.display.clone())
}

/// What the given texts denote as numbers.
fn readings_of(texts: &Vec<String>) -> Readings {
    let mut readings = Readings::new();
    for text in texts {
        if let Ok(value) = text.parse::<f64>() {
            readings.list(text.clone(), number(value));
        }
    }
    readings
}

#[test]
fn parses_external_pipe_benchmark_options() {
    let args = vec![
        "-case".to_string(),
        "examples/pipe".to_string(),
        "--fields".to_string(),
        "target/fields/100".to_string(),
        "--pressureDrop".to_string(),
        "1.6032".to_string(),
        "--mu".to_string(),
        "0.001002".to_string(),
        "--length".to_string(),
        "1".to_string(),
        "--diameter".to_string(),
        "0.02".to_string(),
        "--axis".to_string(),
        "z".to_string(),
        "--inletPatch".to_string(),
        "feed".to_string(),
        "--outletPatch".to_string(),
        "product".to_string(),
        "--outJson".to_string(),
        "target/pipe.json".to_string(),
    ];

    let parsed = parse_pipe_benchmark_args(&args, &readings_of(&args)).expect("pipe benchmark args should parse");

    assert_eq!(parsed.case_dir, "examples/pipe".to_string());
    assert_eq!(parsed.fields_dir, "target/fields/100".to_string());
    assert_eq!(parsed.options.pressure_drop.display, number(1.6032).display);
    assert_eq!(parsed.options.dynamic_viscosity.display, number(0.001002).display);
    assert_eq!(parsed.options.length.display, number(1.0).display);
    assert_eq!(parsed.options.diameter.display, number(0.02).display);
    assert_eq!(parsed.options.axis, PipeAxis::Z);
    assert_eq!(parsed.options.inlet_patch, "feed");
    assert_eq!(parsed.options.outlet_patch, "product");
    assert_eq!(parsed.out_json, Some("target/pipe.json".to_string()));
}

#[test]
fn parses_external_plane_channel_benchmark_options() {
    let args = vec![
        "-case".to_string(),
        "target/cases/channel".to_string(),
        "--fields".to_string(),
        "target/fields/545".to_string(),
        "--pressureDrop".to_string(),
        "0.6012".to_string(),
        "--mu".to_string(),
        "0.001002".to_string(),
        "--length".to_string(),
        "1".to_string(),
        "--gap".to_string(),
        "0.02".to_string(),
        "--depth".to_string(),
        "0.001".to_string(),
        "--axis".to_string(),
        "x".to_string(),
        "--pressureScale".to_string(),
        "998.2".to_string(),
    ];

    let parsed = parse_plane_channel_benchmark_args(&args, &readings_of(&args))
        .expect("plane-channel benchmark args should parse");

    assert_eq!(parsed.case_dir, "target/cases/channel".to_string());
    assert_eq!(parsed.fields_dir, "target/fields/545".to_string());
    assert_eq!(parsed.options.pressure_drop.display, number(0.6012).display);
    assert_eq!(parsed.options.gap.display, number(0.02).display);
    assert_eq!(parsed.options.depth.display, number(0.001).display);
    assert_eq!(parsed.options.axis, PipeAxis::X);
    assert_eq!(parsed.pressure_scale.display, number(998.2).display);
}

#[test]
fn external_pipe_benchmark_requires_stored_fields() {
    let error = parse_pipe_benchmark_args(&vec![
        "--pressureDrop".to_string(),
        "1.6032".to_string(),
        "--mu".to_string(),
        "0.001002".to_string(),
        "--length".to_string(),
        "1".to_string(),
        "--diameter".to_string(),
        "0.02".to_string(),
    ], &readings_of(&vec![
        "--pressureDrop".to_string(),
        "1.6032".to_string(),
        "--mu".to_string(),
        "0.001002".to_string(),
        "--length".to_string(),
        "1".to_string(),
        "--diameter".to_string(),
        "0.02".to_string(),
    ]))
    .expect_err("pipe post-processing without stored fields must fail");

    assert!(error.contains("requires --fields"));
}

#[test]
fn parses_solver_plan_json_option() {
    let args = vec![
        "-case".to_string(),
        "cases/reactor".to_string(),
        "--preflight".to_string(),
        "--planJson".to_string(),
        "system/solverPlan.json".to_string(),
        "--runnerDryRun".to_string(),
        "--maxRunnerSteps".to_string(),
        "4".to_string(),
    ];

    let parsed = parse_solver_args(&args, &readings_of(&args)).expect("solver args should parse");

    assert_eq!(parsed.case_dir, "cases/reactor".to_string());
    assert_eq!(
        parsed.plan_json,
        Some("system/solverPlan.json".to_string())
    );
    assert!(parsed.runner_dry_run);
    assert_eq!(parsed.max_runner_steps, 4);
}

#[test]
fn rejects_zero_runner_preview_steps() {
    let args = vec!["--maxRunnerSteps".to_string(), "0".to_string()];

    let error = parse_solver_args(&args, &readings_of(&args)).expect_err("zero preview steps should fail");

    assert!(error.contains("greater than zero"));
}

#[test]
fn parses_scalar_diffusion_solve_options() {
    let args = vec![
        "-case".to_string(),
        "examples/laminar_pipe".to_string(),
        "--solveScalarDiffusion".to_string(),
        "T".to_string(),
        "--diffusivity".to_string(),
        "0.598".to_string(),
        "--source".to_string(),
        "2.5".to_string(),
        "--linearSolver".to_string(),
        "jacobi".to_string(),
        "--solveTolerance".to_string(),
        "1e-8".to_string(),
        "--maxIterations".to_string(),
        "123".to_string(),
    ];

    let parsed = parse_solver_args(&args, &readings_of(&args)).expect("solver args should parse");
    let solve = parsed
        .scalar_diffusion_solve
        .expect("scalar diffusion solve args");

    assert_eq!(solve.field, "T");
    assert_eq!(solve.diffusivity.display, number(0.598).display);
    assert_eq!(solve.source.display, number(2.5).display);
    assert_eq!(solve.linear_solver, ScalarDiffusionLinearSolver::Jacobi);
    assert_eq!(solve.tolerance.display, number(1e-8).display);
    assert_eq!(solve.max_iterations, 123);
}

#[test]
fn rejects_scalar_diffusion_options_without_field() {
    let args = vec!["--diffusivity".to_string(), "1.0".to_string()];

    let error =
        parse_solver_args(&args, &readings_of(&args)).expect_err("diffusivity without solve field should fail");

    assert!(error.contains("--solveScalarDiffusion"));
}

#[test]
fn parses_poiseuille_solve_options() {
    let args = vec![
        "--solvePoiseuille".to_string(),
        "--pressureDrop".to_string(),
        "1.6032".to_string(),
        "--mu".to_string(),
        "0.001002".to_string(),
        "--length".to_string(),
        "1.0".to_string(),
        "--diameter".to_string(),
        "0.02".to_string(),
        "--wallPatch".to_string(),
        "pipeWall".to_string(),
        "--linearSolver".to_string(),
        "cg".to_string(),
    ];

    let parsed = parse_solver_args(&args, &readings_of(&args)).expect("solver args should parse");
    let solve = parsed.poiseuille_solve.expect("poiseuille solve args");

    assert_eq!(shown(&solve.pressure_drop), Some(number(1.6032).display));
    assert_eq!(shown(&solve.dynamic_viscosity), Some(number(0.001002).display));
    assert_eq!(shown(&solve.length), Some(number(1.0).display));
    assert_eq!(shown(&solve.diameter), Some(number(0.02).display));
    assert_eq!(solve.wall_patches, vec!["pipeWall"]);
    assert_eq!(solve.linear_solver, ScalarDiffusionLinearSolver::Cg);
}

#[test]
fn parses_laminar_simple_solve_options() {
    let args = vec![
        "--solveLaminarSimple".to_string(),
        "--rho".to_string(),
        "998.2".to_string(),
        "--mu".to_string(),
        "0.001002".to_string(),
        "--maxSimpleIterations".to_string(),
        "7".to_string(),
        "--minSimpleIterations".to_string(),
        "3".to_string(),
        "--nNonOrthogonalCorrectors".to_string(),
        "2".to_string(),
        "--simpleConsistent".to_string(),
        "--pRefCell".to_string(),
        "12".to_string(),
        "--pRefValue".to_string(),
        "101325".to_string(),
        "--velocityRelaxation".to_string(),
        "0.6".to_string(),
        "--pressureRelaxation".to_string(),
        "0.2".to_string(),
        "--solveReportJson".to_string(),
        "target/simple.json".to_string(),
        "--solveReportMarkdown".to_string(),
        "target/simple.md".to_string(),
        "--writeFinalFields".to_string(),
        "target/simpleFields/1".to_string(),
    ];

    let parsed = parse_solver_args(&args, &readings_of(&args)).expect("solver args should parse");
    let solve = parsed
        .laminar_simple_solve
        .expect("laminar SIMPLE solve args");

    assert_eq!(shown(&solve.density), Some(number(998.2).display));
    assert_eq!(shown(&solve.dynamic_viscosity), Some(number(0.001002).display));
    assert_eq!(solve.linear_solver, None);
    assert_eq!(solve.momentum_linear_solver, None);
    assert_eq!(solve.pressure_linear_solver, None);
    assert_eq!(solve.momentum_preconditioner, None);
    assert_eq!(solve.pressure_preconditioner, None);
    assert_eq!(shown(&solve.linear_tolerance), None);
    assert_eq!(solve.max_linear_iterations, None);
    assert_eq!(shown(&solve.momentum_linear_tolerance), None);
    assert_eq!(shown(&solve.pressure_linear_tolerance), None);
    assert_eq!(solve.momentum_max_linear_iterations, None);
    assert_eq!(solve.pressure_max_linear_iterations, None);
    assert_eq!(solve.max_simple_iterations, Some(7));
    assert_eq!(solve.min_simple_iterations, Some(3));
    assert_eq!(solve.non_orthogonal_correctors, Some(2));
    assert_eq!(solve.simple_consistent, Some(true));
    assert_eq!(solve.pressure_reference_cell, Some(12));
    assert_eq!(shown(&solve.pressure_reference_value), Some(number(101325.0).display));
    assert_eq!(shown(&solve.velocity_relaxation), Some(number(0.6).display));
    assert_eq!(shown(&solve.pressure_relaxation), Some(number(0.2).display));
    assert_eq!(solve.report_json, Some("target/simple.json".to_string()));
    assert_eq!(
        solve.report_markdown,
        Some("target/simple.md".to_string())
    );
    assert_eq!(
        solve.write_final_fields,
        Some("target/simpleFields/1".to_string())
    );
}

#[test]
fn parses_laminar_simple_residual_reporting_options() {
    let args = vec![
        "--solveLaminarSimple".to_string(),
        "--solveVerbose".to_string(),
        "--solveResidualCsv".to_string(),
        "target/simple-residuals.csv".to_string(),
        "--solveResidualPlot".to_string(),
        "target/simple-residuals.png".to_string(),
        "--solveReportJson".to_string(),
        "target/simple.json".to_string(),
    ];

    let parsed = parse_solver_args(&args, &readings_of(&args)).expect("solver args should parse");
    let solve = parsed
        .laminar_simple_solve
        .expect("laminar SIMPLE solve args");

    assert!(solve.solve_verbose);
    assert_eq!(
        solve.solve_residual_csv,
        Some("target/simple-residuals.csv".to_string())
    );
    assert_eq!(
        solve.solve_residual_plot,
        Some("target/simple-residuals.png".to_string())
    );
    assert_eq!(solve.report_json, Some("target/simple.json".to_string()));
}

#[test]
fn parses_laminar_simple_split_linear_solvers() {
    let args = vec![
        "--solveLaminarSimple".to_string(),
        "--linearSolver".to_string(),
        "bicgstab".to_string(),
        "--momentumLinearSolver".to_string(),
        "cg".to_string(),
        "--pressureLinearSolver".to_string(),
        "pcg".to_string(),
        "--pressurePreconditioner".to_string(),
        "DIC".to_string(),
    ];

    let parsed = parse_solver_args(&args, &readings_of(&args)).expect("solver args should parse");
    let solve = parsed
        .laminar_simple_solve
        .expect("laminar SIMPLE solve args");

    assert_eq!(
        solve.linear_solver,
        Some(LaminarSimpleLinearSolver::BiCgStab)
    );
    assert_eq!(
        solve.momentum_linear_solver,
        Some(LaminarSimpleLinearSolver::Cg)
    );
    assert_eq!(
        solve.pressure_linear_solver,
        Some(LaminarSimpleLinearSolver::Pcg)
    );
    assert_eq!(
        solve.pressure_preconditioner,
        Some(LaminarSimplePreconditioner::IncompleteCholesky)
    );
}

#[test]
fn rejects_bicgstab_for_scalar_diffusion_generic_solver() {
    let args = vec![
        "--solveScalarDiffusion".to_string(),
        "T".to_string(),
        "--linearSolver".to_string(),
        "bicgstab".to_string(),
    ];

    let error =
        parse_solver_args(&args, &readings_of(&args)).expect_err("bicgstab is not a scalar-diffusion solver");

    assert!(error.contains("expected 'cg' or 'jacobi'"));
}

#[test]
fn parses_laminar_simple_split_linear_controls() {
    let args = vec![
        "--solveLaminarSimple".to_string(),
        "--solveTolerance".to_string(),
        "1e-6".to_string(),
        "--maxIterations".to_string(),
        "200".to_string(),
        "--momentumSolveTolerance".to_string(),
        "1e-7".to_string(),
        "--pressureSolveTolerance".to_string(),
        "1e-9".to_string(),
        "--momentumMaxIterations".to_string(),
        "300".to_string(),
        "--pressureMaxIterations".to_string(),
        "400".to_string(),
    ];

    let parsed = parse_solver_args(&args, &readings_of(&args)).expect("solver args should parse");
    let solve = parsed
        .laminar_simple_solve
        .expect("laminar SIMPLE solve args");

    assert_eq!(shown(&solve.linear_tolerance), Some(number(1e-6).display));
    assert_eq!(solve.max_linear_iterations, Some(200));
    assert_eq!(shown(&solve.momentum_linear_tolerance), Some(number(1e-7).display));
    assert_eq!(shown(&solve.pressure_linear_tolerance), Some(number(1e-9).display));
    assert_eq!(solve.momentum_max_linear_iterations, Some(300));
    assert_eq!(solve.pressure_max_linear_iterations, Some(400));
}

#[test]
fn parses_laminar_simple_relaxation_as_case_defaults_when_not_overridden() {
    let args = vec!["--solveLaminarSimple".to_string()];

    let parsed = parse_solver_args(&args, &readings_of(&args)).expect("solver args should parse");
    let solve = parsed
        .laminar_simple_solve
        .expect("laminar SIMPLE solve args");

    assert_eq!(shown(&solve.velocity_relaxation), None);
    assert_eq!(shown(&solve.pressure_relaxation), None);
    assert_eq!(solve.simple_consistent, None);
}

#[test]
fn laminar_simple_rejects_pipe_benchmark_cli_options() {
    let error = parse_solver_args(&vec![
        "--solveLaminarSimple".to_string(),
        "--pressureDrop".to_string(),
        "1.6032".to_string(),
    ], &readings_of(&vec![
        "--solveLaminarSimple".to_string(),
        "--pressureDrop".to_string(),
        "1.6032".to_string(),
    ]))
    .expect_err("pipe benchmark inputs must stay outside the generic SIMPLE solve");

    assert!(error.contains("Poiseuille solve options require --solvePoiseuille"));
}

#[test]
fn rejects_mixed_executable_solves() {
    let args = vec![
        "--solveScalarDiffusion".to_string(),
        "T".to_string(),
        "--solvePoiseuille".to_string(),
    ];

    let error = parse_solver_args(&args, &readings_of(&args)).expect_err("mixed executable solves should fail");

    assert!(error.contains("cannot be combined"));
}

/// All spellings of the options, and what is said where their value is missing.
const SPELLINGS: [(&[&str], Option<&str>); 42] = [
    (
        &["-case", "--case"],
        Some("-case requires a directory"),
    ),
    (
        &["-preflight", "--preflight", "-dryRun", "--dry-run"],
        None,
    ),
    (
        &["-planJson", "--planJson", "-plan-json", "--plan-json"],
        Some("--planJson requires a file path"),
    ),
    (
        &["-runnerDryRun", "--runnerDryRun", "-runner-dry-run", "--runner-dry-run"],
        None,
    ),
    (
        &["-maxRunnerSteps", "--maxRunnerSteps", "-max-runner-steps", "--max-runner-steps"],
        Some("--maxRunnerSteps requires a positive integer"),
    ),
    (
        &["-solveScalarDiffusion", "--solveScalarDiffusion", "-solve-scalar-diffusion", "--solve-scalar-diffusion"],
        Some("--solveScalarDiffusion requires a field name"),
    ),
    (
        &["-solvePoiseuille", "--solvePoiseuille", "-solve-poiseuille", "--solve-poiseuille"],
        None,
    ),
    (
        &["-solveLaminarSimple", "--solveLaminarSimple", "-solve-laminar-simple", "--solve-laminar-simple"],
        None,
    ),
    (
        &["-diffusivity", "--diffusivity"],
        Some("--diffusivity requires a positive number"),
    ),
    (
        &["-source", "--source"],
        Some("--source requires a finite number"),
    ),
    (
        &["-pressureDrop", "--pressureDrop", "-pressure-drop", "--pressure-drop"],
        Some("--pressureDrop requires a positive pressure drop in Pa"),
    ),
    (
        &["-rho", "--rho"],
        Some("--rho requires a positive density in kg/m3"),
    ),
    (
        &["-mu", "--mu"],
        Some("--mu requires a positive dynamic viscosity in Pa s"),
    ),
    (
        &["-length", "--length"],
        Some("--length requires a positive pipe length in m"),
    ),
    (
        &["-diameter", "--diameter"],
        Some("--diameter requires a positive pipe diameter in m"),
    ),
    (
        &["-wallPatch", "--wallPatch", "-wall-patch", "--wall-patch"],
        Some("--wallPatch requires a patch name"),
    ),
    (
        &["-linearSolver", "--linearSolver", "-linear-solver", "--linear-solver"],
        Some("--linearSolver requires 'bicgstab', 'gaussSeidel', 'cg', 'pcg', or 'jacobi'"),
    ),
    (
        &["-momentumLinearSolver", "--momentumLinearSolver", "-momentum-linear-solver", "--momentum-linear-solver"],
        Some("--momentumLinearSolver requires 'bicgstab', 'gaussSeidel', 'cg', 'pcg', or 'jacobi'"),
    ),
    (
        &["-pressureLinearSolver", "--pressureLinearSolver", "-pressure-linear-solver", "--pressure-linear-solver"],
        Some("--pressureLinearSolver requires 'bicgstab', 'gaussSeidel', 'cg', 'pcg', or 'jacobi'"),
    ),
    (
        &["-momentumPreconditioner", "--momentumPreconditioner", "-momentum-preconditioner", "--momentum-preconditioner"],
        Some("--momentumPreconditioner requires 'none', 'diagonal', 'DIC', or 'incompleteCholesky'"),
    ),
    (
        &["-pressurePreconditioner", "--pressurePreconditioner", "-pressure-preconditioner", "--pressure-preconditioner"],
        Some("--pressurePreconditioner requires 'none', 'diagonal', 'DIC', or 'incompleteCholesky'"),
    ),
    (
        &["-solveTolerance", "--solveTolerance", "-solve-tolerance", "--solve-tolerance"],
        Some("--solveTolerance requires a non-negative number"),
    ),
    (
        &["-maxIterations", "--maxIterations", "-max-iterations", "--max-iterations"],
        Some("--maxIterations requires a positive integer"),
    ),
    (
        &["-momentumSolveTolerance", "--momentumSolveTolerance", "-momentum-solve-tolerance", "--momentum-solve-tolerance"],
        Some("--momentumSolveTolerance requires a non-negative number"),
    ),
    (
        &["-pressureSolveTolerance", "--pressureSolveTolerance", "-pressure-solve-tolerance", "--pressure-solve-tolerance"],
        Some("--pressureSolveTolerance requires a non-negative number"),
    ),
    (
        &["-momentumMaxIterations", "--momentumMaxIterations", "-momentum-max-iterations", "--momentum-max-iterations"],
        Some("--momentumMaxIterations requires a positive integer"),
    ),
    (
        &["-pressureMaxIterations", "--pressureMaxIterations", "-pressure-max-iterations", "--pressure-max-iterations"],
        Some("--pressureMaxIterations requires a positive integer"),
    ),
    (
        &["-maxSimpleIterations", "--maxSimpleIterations", "-max-simple-iterations", "--max-simple-iterations"],
        Some("--maxSimpleIterations requires a positive integer"),
    ),
    (
        &["-minSimpleIterations", "--minSimpleIterations", "-min-simple-iterations", "--min-simple-iterations"],
        Some("--minSimpleIterations requires a positive integer"),
    ),
    (
        &["-nNonOrthogonalCorrectors", "--nNonOrthogonalCorrectors", "-n-non-orthogonal-correctors", "--n-non-orthogonal-correctors"],
        Some("--nNonOrthogonalCorrectors requires a non-negative integer"),
    ),
    (
        &["-simpleConsistent", "--simpleConsistent", "-simple-consistent", "--simple-consistent"],
        None,
    ),
    (
        &["-noSimpleConsistent", "--noSimpleConsistent", "-no-simple-consistent", "--no-simple-consistent"],
        None,
    ),
    (
        &["-pRefCell", "--pRefCell", "-p-ref-cell", "--p-ref-cell"],
        Some("--pRefCell requires a non-negative integer"),
    ),
    (
        &["-pRefValue", "--pRefValue", "-p-ref-value", "--p-ref-value"],
        Some("--pRefValue requires a finite pressure value"),
    ),
    (
        &["-velocityRelaxation", "--velocityRelaxation", "-velocity-relaxation", "--velocity-relaxation"],
        Some("--velocityRelaxation requires a number in (0, 1]"),
    ),
    (
        &["-pressureRelaxation", "--pressureRelaxation", "-pressure-relaxation", "--pressure-relaxation"],
        Some("--pressureRelaxation requires a number in (0, 1]"),
    ),
    (
        &["-solveVerbose", "--solveVerbose", "-solve-verbose", "--solve-verbose"],
        None,
    ),
    (
        &["-solveResidualCsv", "--solveResidualCsv", "-solve-residual-csv", "--solve-residual-csv"],
        Some("--solveResidualCsv requires a file path"),
    ),
    (
        &["-solveResidualPlot", "--solveResidualPlot", "-solve-residual-plot", "--solve-residual-plot"],
        Some("--solveResidualPlot requires an output image path"),
    ),
    (
        &["-solveReportJson", "--solveReportJson", "-solve-report-json", "--solve-report-json"],
        Some("--solveReportJson requires a file path"),
    ),
    (
        &["-solveReportMarkdown", "--solveReportMarkdown", "-solve-report-markdown", "--solve-report-markdown"],
        Some("--solveReportMarkdown requires a file path"),
    ),
    (
        &["-writeFinalFields", "--writeFinalFields", "-write-final-fields", "--write-final-fields"],
        Some("--writeFinalFields requires an output directory"),
    ),
];

#[test]
fn knows_every_spelling_of_an_option() {
    let mut seen = Vec::new();
    for (spellings, missing) in SPELLINGS {
        let option = option_of(spellings[0]).expect("option");
        assert!(!seen.contains(&option), "{option:?}");
        seen.push(option);
        for spelling in spellings {
            assert_eq!(option_of(spelling), Some(option), "{spelling}");
            if let Some(message) = missing {
                let args = vec![spelling.to_string()];
                let error = parse_solver_args(&args, &readings_of(&args)).expect_err("no value");
                assert_eq!(error, message);
            }
        }
    }
    for unknown in ["--dryRun", "-dry-run", "--plan_json", "solveVerbose", ""] {
        assert_eq!(option_of(unknown), None);
        let args = vec![unknown.to_string()];
        assert_eq!(
            parse_solver_args(&args, &Readings::new()).expect_err("unknown"),
            format!("unknown ferrumSolver option '{unknown}'")
        );
    }
}

#[test]
fn options_belong_to_their_solve() {
    let refused = |words: &[&str]| {
        let args: Vec<String> = words.iter().map(|word| word.to_string()).collect();
        parse_solver_args(&args, &readings_of(&args)).expect_err("refused")
    };
    assert_eq!(
        refused(&["--source", "1"]),
        "scalar diffusion solve options require --solveScalarDiffusion <field>"
    );
    assert_eq!(refused(&["--length", "1"]), "Poiseuille solve options require --solvePoiseuille");
    assert_eq!(
        refused(&["--mu", "1"]),
        "--mu requires --solvePoiseuille or --solveLaminarSimple"
    );
    assert_eq!(
        refused(&["--rho", "1"]),
        "Laminar SIMPLE solve options require --solveLaminarSimple"
    );
    assert_eq!(
        refused(&["--maxIterations", "1"]),
        "linear solve options require --solveScalarDiffusion <field>, --solvePoiseuille, or --solveLaminarSimple"
    );
    assert_eq!(
        refused(&["--solvePoiseuille", "--linearSolver", "symGaussSeidel"]),
        "invalid --linearSolver value 'symGaussSeidel'; expected 'cg' or 'jacobi'"
    );
    assert_eq!(
        refused(&["--solvePoiseuille", "--solveLaminarSimple"]),
        "--solveScalarDiffusion, --solvePoiseuille, and --solveLaminarSimple cannot be combined in one command yet"
    );
    assert_eq!(
        refused(&["--solveScalarDiffusion", " "]),
        "--solveScalarDiffusion field name must not be empty"
    );
    assert_eq!(
        refused(&["--wallPatch", ""]),
        "--wallPatch patch name must not be empty"
    );
    assert_eq!(
        refused(&["--maxRunnerSteps", "x"]),
        "invalid --maxRunnerSteps value 'x'; expected a positive integer"
    );
}

#[test]
fn later_options_replace_earlier_ones() {
    let args: Vec<String> = [
        "--solveLaminarSimple", "--simpleConsistent", "--noSimpleConsistent", "--rho", "1", "--rho",
        "2", "--simpleConsistent", "no",
    ]
    .iter()
    .map(|word| word.to_string())
    .collect();
    let solve = parse_solver_args(&args, &readings_of(&args))
        .expect("args")
        .laminar_simple_solve
        .expect("solve");
    assert_eq!(solve.simple_consistent, Some(false));
    assert_eq!(shown(&solve.density), Some("2".to_string()));
}

#[test]
fn defaults_of_a_solve() {
    let args = vec!["--solveScalarDiffusion".to_string(), "T".to_string()];
    let parsed = parse_solver_args(&args, &Readings::new()).expect("args");
    assert_eq!(parsed.case_dir, ".");
    assert_eq!(parsed.max_runner_steps, 3);
    let solve = parsed.scalar_diffusion_solve.expect("solve");
    assert_eq!(solve.diffusivity.display, "1");
    assert_eq!(solve.source.display, "0");
    assert_eq!(solve.tolerance.display, number(1.0e-10).display);
    assert_eq!(solve.max_iterations, 10_000);
    assert_eq!(solve.linear_solver, ScalarDiffusionLinearSolver::Cg);
}
