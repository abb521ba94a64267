//! JSON output.

use ferrum::json::write_json_string;
use ferrum::plan::{
    SolverStateCpuBufferPlan, SolverStateCpuBufferStatus, SolverStateFieldKind,
    SolverStateFieldPlan, SolverStateInternalFieldPlan, SolverStatePlan, SolverStateStoragePlan,
    SolverStateStorageStatus, SolverStateValueKind,
};
use ferrum::plan_json::write_json_solver_state;
use ferrum::reals::Real;

#[test]
fn escapes_json_strings() {
    let mut output = String::new();

    write_json_string(&mut output, "a\"b\\c\n\t");

    assert_eq!(
        output,
        "\"a\\\"b\\\\c\\n\\t\""
    );
}

#[test]
fn writes_solver_state_cpu_buffer_json() {
    let plan = SolverStatePlan {
        fields: vec![SolverStateFieldPlan {
            region: None,
            name: "p".to_string(),
            class_name: Some("volScalarField".to_string()),
            kind: SolverStateFieldKind::VolScalar,
            dimensions: Some(vec![
                "0".to_string(),
                "2".to_string(),
                "-2".to_string(),
                "0".to_string(),
                "0".to_string(),
                "0".to_string(),
                "0".to_string(),
            ]),
            mesh_cells: Some(4),
            mesh_faces: Some(5),
            internal_field: SolverStateInternalFieldPlan {
                kind: SolverStateValueKind::Uniform,
                value_count: Some(4),
                expected_count: Some(4),
                valid_count: Some(true),
                uniform_components: Some(vec![Real::zero()]),
                nonuniform_values: None,
            },
            boundary_patches: 1,
            mesh_boundary_patches: Some(1),
            storage: SolverStateStoragePlan {
                cpu_capable: true,
                gpu_capable: true,
                components: Some(1),
                scalar_slots: Some(4),
                bytes_f64: Some(32),
                status: SolverStateStorageStatus::Loaded,
            },
            cpu_buffer: SolverStateCpuBufferPlan {
                materializable: true,
                scalar_slots: Some(4),
                bytes_f64: Some(32),
                status: SolverStateCpuBufferStatus::UniformReady,
            },
        }],
        warnings: Vec::new(),
    };
    let mut output = String::new();

    write_json_solver_state(&mut output, &plan);
    let json = output;

    assert!(json.contains("\"cpuBuffer\""));
    assert!(json.contains("\"materializable\": true"));
    assert!(json.contains("\"status\": \"uniform-ready\""));
}

