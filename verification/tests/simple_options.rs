//! Resolution of the laminar SIMPLE options and the dictionaries they come from.

use ferrum::backends::BackendChoice;
use ferrum::control::ControlDict;
use ferrum::flow::{
    parse_openfoam_laminar_preconditioner, parse_openfoam_laminar_solver,
    LaminarSimpleLinearSolver, LaminarSimplePreconditioner,
};
use ferrum::lookup::{
    numerics_dictionary_number, numerics_dictionary_usize, numerics_dictionary_value,
    validate_laminar_residual_control_dictionary,
};
use ferrum::plan::{
    SolverBackendPlan, SolverCasePlan, SolverCpuResourcePlan, SolverDimensionality,
    SolverFieldPlan, SolverGpuResourcePlan, SolverInterfacePlan, SolverMeshPlan,
    SolverNumericsDictionaryPlan, SolverNumericsEntryPlan, SolverNumericsPlan,
    SolverNumericsSectionPlan, SolverPropertiesPlan, SolverPropertyEntryPlan, SolverRunPlan,
    SolverRuntimeMeshPlan, SolverRuntimePlan, SolverStatePlan,
};
use ferrum::plan_json::solver_plan_json;
use ferrum::reals::{Readings, Real, RealKind};
use ferrum::resolve::resolve_laminar_simple_options;
use ferrum::schemes::{
    parse_laminar_simple_convection_scheme, parse_laminar_simple_gradient_scheme,
    parse_laminar_simple_laplacian_scheme, parse_laminar_simple_sn_grad_scheme,
    LaminarSimpleConvectionScheme, LaminarSimpleGradientScheme, LaminarSimpleLaplacianScheme,
    LaminarSimpleSnGradScheme,
};
use ferrum::solver_args::parse_solver_args;

/// The library's form of a number.
fn number(value: f64) -> Real {
    let kind = if !value.is_finite() {
        RealKind::NotFinite
    } else if value < 0.0 {
        RealKind::Negative
    } else if value == 0.0 {
        RealKind::Zero
    } else if value <= 1.0 {
        RealKind::UpToOne
    } else {
        RealKind::AboveOne
    };
    Real {
        kind,
        display: format!("{value}"),
        scientific: format!("{value:.6e}"),
        percent: format!("{:.3}%", value * 100.0),
        full: if value == 0.0 { "0".to_string() } else { format!("{value:.16e}") },
    }
}

/// The notation of an optional number.
fn shown(value: &Option<Real>) -> Option<String> {
    value.as_ref().map(|inner| inner.display.clone())
}

/// What the given texts denote as numbers.
fn readings_of(texts: &Vec<String>) -> Readings {
    let mut readings = Readings::new();
    for text in texts {
        if let Ok(value) = text.parse::<f64>() {
            readings.list(text.clone(), number(value));
        }
    }
    readings
}

/// What the words of a dictionary's values denote as numbers.
fn dictionary_readings(dictionary: &SolverNumericsDictionaryPlan) -> Readings {
    let mut words = Vec::new();
    for entry in &dictionary.entries {
        for word in entry.value.split_whitespace() {
            words.push(word.trim_matches(|ch: char| "[]();,".contains(ch)).to_string());
        }
    }
    readings_of(&words)
}

fn space_end(text: &[u8], mut at: usize) -> usize {
    while at < text.len() && b" \n\r\t".contains(&text[at]) {
        at += 1;
    }
    at
}

fn string_end(text: &[u8], mut at: usize) -> Option<usize> {
    if text.get(at) != Some(&b'"') {
        return None;
    }
    at += 1;
    while at < text.len() {
        match text[at] {
            b'"' => return Some(at + 1),
            b'\\' if text.get(at + 1) == Some(&b'u') => {
                if !text.get(at + 2..at + 6)?.iter().all(u8::is_ascii_hexdigit) {
                    return None;
                }
                at += 6;
            }
            b'\\' => {
                if !b"\"\\/bfnrt".contains(text.get(at + 1)?) {
                    return None;
                }
                at += 2;
            }
            code if code < 0x20 => return None,
            _ => at += 1,
        }
    }
    None
}

/// Where the JSON value at `at` ends.
fn value_end(text: &[u8], at: usize) -> Option<usize> {
    for word in ["null", "true", "false"] {
        if text[at..].starts_with(word.as_bytes()) {
            return Some(at + word.len());
        }
    }
    let close = match *text.get(at)? {
        b'"' => return string_end(text, at),
        b'{' => b'}',
        b'[' => b']',
        _ => {
            let length = text[at..].iter().take_while(|ch| b"+-.0123456789eE".contains(ch)).count();
            let digits = text[at..at + length].iter().filter(|ch| ch.is_ascii_digit()).count();
            return if digits > 0 { Some(at + length) } else { None };
        }
    };
    let mut end = space_end(text, at + 1);
    if text.get(end) == Some(&close) {
        return Some(end + 1);
    }
    loop {
        end = space_end(text, end);
        if close == b'}' {
            end = space_end(text, string_end(text, end)?);
            if text.get(end) != Some(&b':') {
                return None;
            }
            end = space_end(text, end + 1);
        }
        end = space_end(text, value_end(text, end)?);
        match *text.get(end)? {
            b',' => end += 1,
            code if code == close => return Some(end + 1),
            _ => return None,
        }
    }
}

fn is_json(text: &str) -> bool {
    let text = text.as_bytes();
    match value_end(text, space_end(text, 0)) {
        Some(end) => space_end(text, end) == text.len(),
        None => false,
    }
}

/// What the words of a plan's values denote as numbers.
fn plan_readings(plan: &SolverCasePlan) -> Readings {
    let mut words = Vec::new();
    for entry in &plan.properties.entries {
        for word in entry.value.split_whitespace() {
            words.push(word.to_string());
        }
    }
    for entry in &plan.numerics.fv_solution.entries {
        for word in entry.value.split_whitespace() {
            words.push(word.to_string());
        }
    }
    readings_of(&words)
}

fn laminar_simple_test_plan(density: f64, dynamic_viscosity: f64) -> SolverCasePlan {
    SolverCasePlan {
        case_dir: "case".to_string(),
        control: ControlDict {
            path: "controlDict".to_string(),
            application: "ferrumSolver".to_string(),
            start_from: "startTime".to_string(),
            start_time: Some(number(0.0)),
            stop_at: "endTime".to_string(),
            end_time: Some(number(100.0)),
            delta_t: Some(number(1.0)),
            write_control: "timeStep".to_string(),
            write_interval: None,
        },
        mesh: SolverMeshPlan {
            points: 0,
            cells: 0,
            faces: 0,
            internal_faces: 0,
            boundary_faces: 0,
            patches: 0,
            empty_patches: 0,
            wedge_patches: 0,
            symmetry_patches: 0,
            dimensionality: SolverDimensionality::ThreeD,
            region_meshes: Vec::new(),
        },
        fields: SolverFieldPlan { fields: Vec::new() },
        state: SolverStatePlan {
            fields: Vec::new(),
            warnings: Vec::new(),
        },
        runtime_data: SolverRuntimePlan {
            mesh: SolverRuntimeMeshPlan {
                points: 0,
                cells: 0,
                faces: 0,
                internal_faces: 0,
                boundary_faces: 0,
                owner_labels: 0,
                neighbour_labels: 0,
                cell_centres: 0,
                face_centres: 0,
                face_area_vectors: 0,
                cell_volumes: 0,
                total_cell_volume: number(0.0),
                min_cell_volume: number(0.0),
                max_cell_volume: number(0.0),
                min_face_area: number(0.0),
                max_face_area: number(0.0),
                non_positive_cell_volumes: 0,
                patches: Vec::new(),
            },
            fields: Vec::new(),
            warnings: Vec::new(),
        },
        properties: SolverPropertiesPlan {
            dictionaries: Vec::new(),
            entries: vec![
                SolverPropertyEntryPlan {
                    dictionary: "transportProperties".to_string(),
                    section: None,
                    key: "rho".to_string(),
                    value: format!("{density}"),
                },
                SolverPropertyEntryPlan {
                    dictionary: "transportProperties".to_string(),
                    section: None,
                    key: "mu".to_string(),
                    value: format!("{dynamic_viscosity}"),
                },
            ],
        },
        numerics: SolverNumericsPlan {
            fv_schemes: SolverNumericsDictionaryPlan {
                present: true,
                sections: Vec::new(),
                entries: vec![
                    SolverNumericsEntryPlan {
                        section: "gradSchemes".to_string(),
                        key: "default".to_string(),
                        value: "Gauss linear".to_string(),
                    },
                    SolverNumericsEntryPlan {
                        section: "divSchemes".to_string(),
                        key: "div(phi,U)".to_string(),
                        value: "Gauss upwind".to_string(),
                    },
                    SolverNumericsEntryPlan {
                        section: "laplacianSchemes".to_string(),
                        key: "default".to_string(),
                        value: "Gauss linear corrected".to_string(),
                    },
                    SolverNumericsEntryPlan {
                        section: "interpolationSchemes".to_string(),
                        key: "default".to_string(),
                        value: "linear".to_string(),
                    },
                    SolverNumericsEntryPlan {
                        section: "snGradSchemes".to_string(),
                        key: "default".to_string(),
                        value: "corrected".to_string(),
                    },
                ],
            },
            fv_solution: SolverNumericsDictionaryPlan {
                present: true,
                sections: Vec::new(),
                entries: vec![
                    SolverNumericsEntryPlan {
                        section: "solvers.U".to_string(),
                        key: "solver".to_string(),
                        value: "smoothSolver".to_string(),
                    },
                    SolverNumericsEntryPlan {
                        section: "solvers.U".to_string(),
                        key: "smoother".to_string(),
                        value: "symGaussSeidel".to_string(),
                    },
                    SolverNumericsEntryPlan {
                        section: "solvers.U".to_string(),
                        key: "tolerance".to_string(),
                        value: "1e-10".to_string(),
                    },
                    SolverNumericsEntryPlan {
                        section: "solvers.p".to_string(),
                        key: "solver".to_string(),
                        value: "PCG".to_string(),
                    },
                    SolverNumericsEntryPlan {
                        section: "solvers.p".to_string(),
                        key: "preconditioner".to_string(),
                        value: "DIC".to_string(),
                    },
                    SolverNumericsEntryPlan {
                        section: "solvers.p".to_string(),
                        key: "tolerance".to_string(),
                        value: "1e-10".to_string(),
                    },
                ],
            },
        },
        interfaces: SolverInterfacePlan {
            registry_available: false,
            discovered_interfaces: 0,
            boundary_face_zones: 0,
            config_present: false,
            configured_interfaces: 0,
        },
        backends: SolverBackendPlan {
            config_present: false,
            default: BackendChoice::Cpu,
            uses_cpu: true,
            uses_gpu: true,
            mixed_execution: true,
            cpu: SolverCpuResourcePlan {
                cpus: "auto".to_string(),
                cores_per_cpu: "auto".to_string(),
                threads: "auto".to_string(),
                thread_pinning: "off".to_string(),
                numa: "auto".to_string(),
            },
            gpu: SolverGpuResourcePlan {
                backend: "auto".to_string(),
                devices: vec!["auto".to_string()],
                multi_gpu: "auto".to_string(),
                precision: "f64".to_string(),
            },
            stages: Vec::new(),
        },
        run: SolverRunPlan {
            stop_at: "endTime".to_string(),
            start_time: Some(number(0.0)),
            end_time: Some(number(100.0)),
            delta_t: Some(number(1.0)),
            estimated_steps: Some(100),
            write_control: "timeStep".to_string(),
            write_interval: None,
            estimated_write_events: None,
            stages: Vec::new(),
        },
        warnings: Vec::new(),
    }
}

#[test]
fn laminar_simple_resolves_without_pipe_benchmark_inputs() {
    let plan = laminar_simple_test_plan(1000.0, 0.001002);
    let args = vec![
        "--solveLaminarSimple".to_string(),
        "--rho".to_string(),
        "1000".to_string(),
        "--mu".to_string(),
        "0.001002".to_string(),
    ];
    let parsed = parse_solver_args(&args, &readings_of(&args)).expect("solver args should parse");
    let solve = parsed
        .laminar_simple_solve
        .expect("laminar SIMPLE solve args");
    let options = resolve_laminar_simple_options(&plan_readings(&plan), &plan, &solve)
        .expect("laminar options should resolve without pipeBenchmark");

    assert_eq!(options.density.display, number(1000.0).display);
    assert_eq!(options.dynamic_viscosity.display, number(0.001002).display);
    assert_eq!(
        options.momentum_linear_solver,
        LaminarSimpleLinearSolver::SymGaussSeidel
    );
    assert_eq!(
        options.pressure_linear_solver,
        LaminarSimpleLinearSolver::Pcg
    );
    assert_eq!(options.max_simple_iterations, 100);
}

#[test]
fn laminar_simple_uses_openfoam_ldu_defaults_when_controls_are_absent() {
    let mut plan = laminar_simple_test_plan(1000.0, 0.001002);
    plan.numerics
        .fv_solution
        .entries
        .retain(|entry| !matches!(entry.key.as_str(), "tolerance" | "maxIter"));
    let parsed = parse_solver_args(&vec!["--solveLaminarSimple".to_string()], &readings_of(&vec!["--solveLaminarSimple".to_string()]))
        .expect("solver args should parse");
    let solve = parsed
        .laminar_simple_solve
        .expect("laminar SIMPLE solve args");
    let options = resolve_laminar_simple_options(&plan_readings(&plan), &plan, &solve)
        .expect("OpenFOAM defaults should resolve");

    assert_eq!(options.momentum_linear_tolerance.display, number(1.0e-6).display);
    assert_eq!(options.pressure_linear_tolerance.display, number(1.0e-6).display);
    assert_eq!(options.momentum_max_linear_iterations, 1_000);
    assert_eq!(options.pressure_max_linear_iterations, 1_000);
}

#[test]
fn laminar_simple_rejects_unimplemented_nonzero_relative_tolerance() {
    let mut plan = laminar_simple_test_plan(1000.0, 0.001002);
    plan.numerics
        .fv_solution
        .entries
        .push(SolverNumericsEntryPlan {
            section: "solvers.U".to_string(),
            key: "relTol".to_string(),
            value: "0.1".to_string(),
        });
    let parsed = parse_solver_args(&vec!["--solveLaminarSimple".to_string()], &readings_of(&vec!["--solveLaminarSimple".to_string()]))
        .expect("solver args should parse");
    let solve = parsed
        .laminar_simple_solve
        .expect("laminar SIMPLE solve args");
    let error = resolve_laminar_simple_options(&plan_readings(&plan), &plan, &solve)
        .expect_err("non-zero relTol must not be ignored");

    assert!(error.contains("relTol=0.1 is not implemented"));
}

#[test]
fn laminar_simple_ignores_case_level_benchmark_toggles() {
    let mut plan = laminar_simple_test_plan(1000.0, 0.001002);
    plan.numerics.fv_solution.present = true;
    plan.numerics.fv_solution.entries.extend([
        SolverNumericsEntryPlan {
            section: "SIMPLE".to_string(),
            key: "pressureDropTolerance".to_string(),
            value: "0.001".to_string(),
        },
        SolverNumericsEntryPlan {
            section: "SIMPLE".to_string(),
            key: "fieldChangeTolerance".to_string(),
            value: "0.001".to_string(),
        },
        SolverNumericsEntryPlan {
            section: "SIMPLE".to_string(),
            key: "benchmarkConvergence".to_string(),
            value: "true".to_string(),
        },
        SolverNumericsEntryPlan {
            section: "SIMPLE".to_string(),
            key: "minSimpleIterations".to_string(),
            value: "3".to_string(),
        },
    ]);

    let args = vec!["--solveLaminarSimple".to_string()];
    let parsed = parse_solver_args(&args, &readings_of(&args)).expect("solver args should parse");
    let solve = parsed
        .laminar_simple_solve
        .expect("laminar SIMPLE solve args");
    let options =
        resolve_laminar_simple_options(&plan_readings(&plan), &plan, &solve).expect("laminar options should resolve");

    assert_eq!(options.min_simple_iterations, 3);
}

#[test]
fn reads_numerics_dictionary_numbers() {
    let dictionary = SolverNumericsDictionaryPlan {
        present: true,
        sections: Vec::new(),
        entries: vec![
            SolverNumericsEntryPlan {
                section: "relaxationFactors.fields".to_string(),
                key: "p".to_string(),
                value: "0.3".to_string(),
            },
            SolverNumericsEntryPlan {
                section: "relaxationFactors.equations".to_string(),
                key: "U".to_string(),
                value: "0.7".to_string(),
            },
            SolverNumericsEntryPlan {
                section: "solvers.p".to_string(),
                key: "solver".to_string(),
                value: "PCG".to_string(),
            },
            SolverNumericsEntryPlan {
                section: "solvers.p".to_string(),
                key: "preconditioner".to_string(),
                value: "DIC".to_string(),
            },
            SolverNumericsEntryPlan {
                section: "solvers.p".to_string(),
                key: "maxIter".to_string(),
                value: "250".to_string(),
            },
        ],
    };

    assert_eq!(
        shown(&numerics_dictionary_number(
            &dictionary_readings(&dictionary),
            &dictionary,
            "relaxationFactors.equations",
            "U",
        )),
        Some(number(0.7).display)
    );
    assert_eq!(
        shown(&numerics_dictionary_number(
            &dictionary_readings(&dictionary),
            &dictionary,
            "relaxationFactors.fields",
            "p",
        )),
        Some(number(0.3).display)
    );
    assert_eq!(
        shown(&numerics_dictionary_number(
            &dictionary_readings(&dictionary),
            &dictionary,
            "relaxationFactors.fields",
            "U",
        )),
        None
    );
    assert_eq!(
        numerics_dictionary_usize(&dictionary, "solvers.p", "maxIter"),
        Some(250)
    );
    assert_eq!(
        parse_openfoam_laminar_solver(
            numerics_dictionary_value(&dictionary, "solvers.p", "solver").unwrap()
        )
        .unwrap(),
        LaminarSimpleLinearSolver::Pcg
    );
    assert!(parse_openfoam_laminar_solver("smoothSolver").is_err());
    assert_eq!(
        parse_openfoam_laminar_solver("symGaussSeidel").unwrap(),
        LaminarSimpleLinearSolver::SymGaussSeidel
    );
    assert_eq!(
        parse_openfoam_laminar_preconditioner(
            numerics_dictionary_value(&dictionary, "solvers.p", "preconditioner").unwrap()
        )
        .unwrap(),
        LaminarSimplePreconditioner::IncompleteCholesky
    );
    assert!(parse_openfoam_laminar_preconditioner("DILU").is_err());
}

#[test]
fn rejects_dictionary_form_for_simple_residual_control() {
    let dictionary = SolverNumericsDictionaryPlan {
        present: true,
        sections: vec![SolverNumericsSectionPlan {
            path: "SIMPLE.residualControl.U".to_string(),
            entries: 2,
        }],
        entries: Vec::new(),
    };

    let error = validate_laminar_residual_control_dictionary(&dictionary)
        .expect_err("nested residualControl must fail");

    assert!(error.contains("single scalar"));
    assert!(error.contains("SIMPLE.residualControl.U"));
}

#[test]
fn rejects_unsolved_fields_in_simple_residual_control() {
    let dictionary = SolverNumericsDictionaryPlan {
        present: true,
        sections: Vec::new(),
        entries: vec![SolverNumericsEntryPlan {
            section: "SIMPLE.residualControl".to_string(),
            key: "T".to_string(),
            value: "1e-5".to_string(),
        }],
    };

    let error = validate_laminar_residual_control_dictionary(&dictionary)
        .expect_err("unsolved residualControl field must fail");

    assert!(error.contains("supported solved fields are U and p"));
}

#[test]
fn parses_laminar_simple_fv_schemes_subset() {
    assert_eq!(
        parse_laminar_simple_gradient_scheme("Gauss linear").expect("grad scheme"),
        LaminarSimpleGradientScheme::GaussLinear
    );
    assert_eq!(
        parse_laminar_simple_convection_scheme("Gauss upwind").expect("upwind scheme"),
        LaminarSimpleConvectionScheme::GaussUpwind
    );
    assert_eq!(
        parse_laminar_simple_convection_scheme("Gauss linearUpwind grad(U)")
            .expect("linearUpwind scheme"),
        LaminarSimpleConvectionScheme::GaussLinearUpwind
    );
    assert_eq!(
        parse_laminar_simple_sn_grad_scheme("corrected").expect("snGrad scheme"),
        LaminarSimpleSnGradScheme::Corrected
    );
    assert_eq!(
        parse_laminar_simple_laplacian_scheme(
            "Gauss linear corrected",
            LaminarSimpleSnGradScheme::Orthogonal,
        )
        .expect("laplacian scheme"),
        LaminarSimpleLaplacianScheme::GaussLinearCorrected
    );
    assert!(
        parse_laminar_simple_convection_scheme("none")
            .expect_err("default none must not be executable")
            .contains("divSchemes.div(phi,U)")
    );
}


#[test]
fn writes_the_plan_as_json() {
    let mut plan = laminar_simple_test_plan(1000.0, 0.001);
    plan.case_dir = "a \"b\"\u{1}".to_string();
    let json = solver_plan_json(&plan);
    assert!(is_json(&json));
    assert!(json.starts_with("{\n  \"caseDir\": \"a \\\"b\\\"\\u0001\",\n  \"control\": {\n"));
    assert!(json.contains("    \"startTime\": 0,\n"));
    assert!(json.contains("    \"writeInterval\": null\n  },\n  \"mesh\": {\n"));
    assert!(json.contains("    \"regionMeshes\": [\n    ]\n"));
    assert!(json.ends_with("\n  \"warnings\": []\n}\n"));
}
