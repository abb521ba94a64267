//! Readers of the case dictionaries.

use ferrum::backends::{parse_backend_config_str, BackendChoice};
use ferrum::control::parse_control_dict_str;
use ferrum::fields::{parse_field_file_str, FieldValueSummary};
use ferrum::interfaces::parse_interface_config_str;
use ferrum::numerics::{format_numerics_value, parse_numerics_dictionary_str};
use ferrum::properties::{
    format_property_value, parse_property_dictionary_str, validate_properties,
};
use ferrum::reals::{Readings, Real, RealKind};
use ferrum::sorting::{dictionary_order, field_order, file_order};

/// The library's form of a number.
fn number(value: f64) -> Real {
    let kind = if !value.is_finite() {
        RealKind::NotFinite
    } else if value < 0.0 {
        RealKind::Negative
    } else if value == 0.0 {
        RealKind::Zero
    } else if value <= 1.0 {
        RealKind::UpToOne
    } else {
        RealKind::AboveOne
    };
    Real {
        kind,
        display: format!("{value}"),
        scientific: format!("{value:.6e}"),
        percent: format!("{:.3}%", value * 100.0),
        full: if value == 0.0 { "0".to_string() } else { format!("{value:.16e}") },
    }
}

/// What the words of a text denote as numbers.
fn readings_of(content: &str) -> Readings {
    let mut readings = Readings::new();
    for word in content.split(|ch: char| ch.is_whitespace() || ch == ';') {
        if let Ok(value) = word.parse::<f64>() {
            readings.list(word.to_string(), number(value));
        }
    }
    readings
}

/// The notation of an optional number.
fn shown(value: &Option<Real>) -> Option<String> {
    value.as_ref().map(|inner| inner.display.clone())
}

#[test]
fn parses_template_backend_config() {
    let content = r#"
    FoamFile
    {
        version 2.0;
        class dictionary;
        object ferrumBackends;
    }

    default cpu;

    mesh
    {
        import cpu;
        checks cpu;
    }

    flow
    {
        residual auto;
        linearSolve gpu;
    }

    gpu
    {
        backend wgpu;
        device auto;
        precision f64;
    }
    "#;

    let config = parse_backend_config_str(content, "ferrumBackends").unwrap();
    assert_eq!(config.default, BackendChoice::Cpu);
    assert_eq!(config.sections.len(), 2);
    assert_eq!(config.sections[1].entries[1].choice, BackendChoice::Gpu);
    assert_eq!(config.gpu.backend, "wgpu");
    assert_eq!(config.gpu.precision, "f64");
}

#[test]
fn parses_outer_ferrum_backends_block() {
    let content = r#"
    ferrumBackends
    {
        default auto;
        flow
        {
            residual gpu;
        }
    }
    "#;

    let config = parse_backend_config_str(content, "ferrumBackends").unwrap();
    assert_eq!(config.default, BackendChoice::Auto);
    assert_eq!(config.sections[0].name, "flow");
    assert_eq!(config.sections[0].entries[0].choice, BackendChoice::Gpu);
}

#[test]
fn rejects_unknown_backend_choice() {
    let content = r#"
    flow
    {
        residual quantum;
    }
    "#;

    let error = parse_backend_config_str(content, "ferrumBackends").unwrap_err();
    assert!(error.to_string().contains("expected cpu, gpu, or auto"));
}

#[test]
fn parses_basic_control_dict() {
    let content = r#"
    FoamFile
    {
        version 2.0;
        class dictionary;
        object controlDict;
    }

    application ferrumSolver;
    startFrom startTime;
    startTime 0;
    stopAt endTime;
    endTime 10;
    deltaT 0.05;
    writeControl timeStep;
    writeInterval 20;
    "#;

    let control = parse_control_dict_str(content, "controlDict", &readings_of(content)).unwrap();
    assert_eq!(control.application, "ferrumSolver");
    assert_eq!(control.start_from, "startTime");
    assert_eq!(shown(&control.start_time), Some(number(0.0).display));
    assert_eq!(shown(&control.end_time), Some(number(10.0).display));
    assert_eq!(shown(&control.delta_t), Some(number(0.05).display));
    assert_eq!(shown(&control.write_interval), Some(number(20.0).display));
}

#[test]
fn uses_openfoam_like_defaults_for_missing_optional_values() {
    let control = parse_control_dict_str("", "controlDict", &Readings::new()).unwrap();
    assert_eq!(control.application, "ferrumSolver");
    assert_eq!(control.start_from, "startTime");
    assert_eq!(control.stop_at, "endTime");
    assert_eq!(control.write_control, "timeStep");
}

#[test]
fn parses_scalar_field_with_boundary_field() {
    let content = r#"
    FoamFile
    {
        version 2.0;
        format ascii;
        class volScalarField;
        object p;
    }

    dimensions [0 2 -2 0 0 0 0];
    internalField uniform 0;

    boundaryField
    {
        inlet
        {
            type fixedValue;
            value uniform 10;
        }
        outlet
        {
            type zeroGradient;
        }
    }
    "#;

    let field = parse_field_file_str(content, "0/p", None).unwrap();
    assert_eq!(field.name, "p");
    assert_eq!(field.class_name.as_deref(), Some("volScalarField"));
    assert_eq!(field.dimensions.unwrap().len(), 7);
    assert_eq!(field.boundary_patches.len(), 2);
    assert_eq!(
        field.boundary_patches[0].patch_type.as_deref(),
        Some("fixedValue")
    );
}

#[test]
fn parses_vector_uniform_values() {
    let content = r#"
    FoamFile
    {
        class volVectorField;
        object U;
    }

    dimensions [0 1 -1 0 0 0 0];
    internalField uniform (0 0 0);
    boundaryField
    {
        inlet
        {
            type fixedValue;
            value uniform (1 0 0);
        }
    }
    "#;

    let field = parse_field_file_str(content, "0/U", None).unwrap();
    match field.internal_field.unwrap() {
        FieldValueSummary::Uniform(value) => assert_eq!(value, "( 0 0 0 )"),
        other => panic!("unexpected field value: {other:?}"),
    }
}

#[test]
fn parses_nonuniform_summary() {
    let content = r#"
    FoamFile
    {
        class volScalarField;
        object T;
    }

    dimensions [0 0 0 1 0 0 0];
    internalField nonuniform List<scalar>
    3
    (
        300
        310
        320
    );
    boundaryField {}
    "#;

    let field =
        parse_field_file_str(content, "0/T", Some("fluid".to_string())).unwrap();
    assert_eq!(field.region.as_deref(), Some("fluid"));
    match field.internal_field.unwrap() {
        FieldValueSummary::NonUniform { value_type, count } => {
            assert_eq!(value_type.as_deref(), Some("List<scalar>"));
            assert_eq!(count, Some(3));
        }
        other => panic!("unexpected field value: {other:?}"),
    }
}

#[test]
fn parses_positive_orientation_as_sign_convention() {
    let content = r#"
    FoamFile
    {
        version 2.0;
        class dictionary;
        object interfaces;
    }

    interfaces
    {
        reactor_wall
        {
            regions (fluid solid);
            faceZone wall_interface;
            orientation fluid_to_solid;
            model heatTransfer;
        }
    }
    "#;

    let config = parse_interface_config_str(content, "interfaces").unwrap();
    assert_eq!(config.entries.len(), 1);
    assert_eq!(config.entries[0].orientation.positive_from, "fluid");
    assert_eq!(config.entries[0].orientation.positive_to, "solid");
    assert_eq!(config.entries[0].model, "heatTransfer");
}

#[test]
fn accepts_reversed_positive_orientation() {
    let content = r#"
    interfaces
    {
        membrane
        {
            regions (retentate permeate);
            faceZone membrane_wall;
            orientation permeate_to_retentate;
        }
    }
    "#;

    let config = parse_interface_config_str(content, "interfaces").unwrap();
    assert_eq!(config.entries[0].orientation.positive_from, "permeate");
    assert_eq!(config.entries[0].orientation.positive_to, "retentate");
    assert_eq!(config.entries[0].model, "none");
}

#[test]
fn parses_fv_schemes_sections() {
    let content = r#"
    FoamFile
    {
        version 2.0;
        class dictionary;
        object fvSchemes;
    }

    ddtSchemes { default Euler; }
    gradSchemes { default Gauss linear; grad(U) Gauss linear; }
    divSchemes { default none; }
    "#;

    let sections = parse_numerics_dictionary_str(content, "fvSchemes").unwrap();

    assert_eq!(sections.len(), 3);
    assert_eq!(sections[0].name, "ddtSchemes");
    assert_eq!(sections[0].entries[0].key, "default");
    assert_eq!(
        format_numerics_value(&sections[1].entries[1].value),
        "Gauss linear"
    );
}

#[test]
fn parses_nested_fv_solution_solver_sections() {
    let content = r#"
    solvers
    {
        p
        {
            solver PCG;
            preconditioner DIC;
            tolerance 1e-08;
            relTol 0.05;
        }
        U
        {
            solver smoothSolver;
        }
    }
    SIMPLE
    {
        nNonOrthogonalCorrectors 1;
    }
    "#;

    let sections = parse_numerics_dictionary_str(content, "fvSolution").unwrap();

    assert_eq!(sections.len(), 2);
    assert_eq!(sections[0].name, "solvers");
    assert_eq!(sections[0].sections.len(), 2);
    assert_eq!(sections[0].sections[0].entries[0].key, "solver");
    assert_eq!(
        format_numerics_value(&sections[0].sections[0].entries[0].value),
        "PCG"
    );
    assert_eq!(sections[1].entries[0].key, "nNonOrthogonalCorrectors");
}

#[test]
fn accepts_empty_sections() {
    let sections =
        parse_numerics_dictionary_str("solvers { }", "fvSolution").unwrap();

    assert_eq!(sections.len(), 1);
    assert!(sections[0].entries.is_empty());
    assert!(sections[0].sections.is_empty());
}

#[test]
fn parses_dimensioned_transport_properties() {
    let content = r#"
    FoamFile
    {
        class dictionary;
        object transportProperties;
    }

    transportModel Newtonian;
    nu [0 2 -1 0 0 0 0] 1e-05;
    rho [1 -3 0 0 0 0 0] 1.2;
    "#;

    let dictionary =
        parse_property_dictionary_str(content, "transportProperties", None).unwrap();

    assert_eq!(dictionary.name, "transportProperties");
    assert_eq!(dictionary.entries.len(), 3);
    assert_eq!(dictionary.entries[0].key, "transportModel");
    assert_eq!(
        format_property_value(&dictionary.entries[1].value),
        "[ 0 2 -1 0 0 0 0 ] 1e-05"
    );
}

#[test]
fn parses_nested_property_sections() {
    let content = r#"
    mixture
    {
        specie
        {
            molWeight 18;
        }
        thermodynamics
        {
            Cp [0 2 -2 -1 0 0 0] 4180;
        }
    }
    "#;

    let dictionary = parse_property_dictionary_str(
        content,
        "thermophysicalProperties",
        Some("fluid".to_string()),
    )
    .unwrap();

    assert_eq!(dictionary.region.as_deref(), Some("fluid"));
    assert_eq!(dictionary.sections[0].name, "mixture");
    assert_eq!(dictionary.sections[0].sections.len(), 2);
}

#[test]
fn validates_dimension_vector_shape() {
    let dictionary = parse_property_dictionary_str(
        "nu [0 2 -1] 1e-05;",
        "transportProperties",
        None,
    )
    .unwrap();

    let validation = validate_properties(&[dictionary]);

    assert_eq!(validation.warnings.len(), 1);
    assert!(validation.warnings[0].contains("expected 7"));
}

#[test]
fn warns_for_empty_property_dictionary() {
    let dictionary =
        parse_property_dictionary_str("", "transportProperties", None).unwrap();

    let validation = validate_properties(&[dictionary]);

    assert_eq!(validation.warnings.len(), 1);
    assert!(validation.warnings[0].contains("has no entries"));
}


#[test]
fn orders_files_by_region_name_and_path() {
    let field = |region: Option<&str>, object: &str, path: &str| {
        let content = format!("FoamFile {{ class volScalarField; object {object}; }}");
        parse_field_file_str(&content, path, region.map(str::to_string)).unwrap()
    };
    let fields = vec![
        field(Some("solid"), "T", "0/solid/T"),
        field(None, "p", "0/p"),
        field(Some("fluid"), "U", "0/fluid/U"),
        field(None, "U", "0/b"),
        field(None, "U", "0/a"),
    ];
    assert_eq!(field_order(&fields), vec![4, 3, 1, 2, 0]);
    let dictionary = |region: Option<&str>, path: &str| {
        parse_property_dictionary_str("", path, region.map(str::to_string)).unwrap()
    };
    let dictionaries = vec![
        dictionary(None, "constant/turbulenceProperties"),
        dictionary(Some("a"), "constant/a/b"),
        dictionary(None, "constant/thermophysicalProperties"),
    ];
    assert_eq!(dictionary_order(&dictionaries), vec![2, 0, 1]);
    assert!(file_order(&Vec::new()).is_empty());
}
