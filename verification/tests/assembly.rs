//! Diffusion and momentum equations, matrices and patches.

use ferrum::diffusion::{
    boundary_conditions_by_face, scalar_diffusion_options_from_field, FaceBoundaryTreatment,
    ScalarBoundaryCondition, ScalarDiffusionOptions, ScalarPatchBoundaryCondition,
};
use ferrum::fields::{FieldBoundaryPatch, FieldFile, FieldValueSummary};
use ferrum::flow_fields::{face_treatments, FlowField, FlowValue};
use ferrum::linear::{next_step, CsrMatrix, SolveStep};
use ferrum::momentum::{
    cell_faces, face_value, momentum_stencil, upwind_face_value, FaceValue, MomentumTerm,
};
use ferrum::patches::validate_poly_mesh_patches;
use ferrum::plan::SolverRuntimePatchRange;
use ferrum::poiseuille::{poiseuille_diffusion_options, PoiseuilleOptions};
use ferrum::poly_mesh::{BoundaryPatch, PolyMesh};
use ferrum::reals::{Readings, Real, RealKind};
use ferrum::runtime::SolverRuntimeMeshData;
use ferrum::sources::{diffusion_sources, momentum_sources};
use ferrum::stencil::{diffusion_stencil, FaceTerm};

type Mesh = SolverRuntimeMeshData<[f64; 3], f64>;

/// The library's form of a number.
fn number(value: f64) -> Real {
    let kind = if !value.is_finite() {
        RealKind::NotFinite
    } else if value < 0.0 {
        RealKind::Negative
    } else if value == 0.0 {
        RealKind::Zero
    } else if value <= 1.0 {
        RealKind::UpToOne
    } else {
        RealKind::AboveOne
    };
    Real {
        kind,
        display: format!("{value}"),
        scientific: format!("{value:.6e}"),
        percent: format!("{:.3}%", value * 100.0),
        full: if value == 0.0 { "0".to_string() } else { format!("{value:.16e}") },
    }
}

fn readings_of(texts: &[&str]) -> Readings {
    let mut readings = Readings::new();
    for text in texts {
        readings.list(text.to_string(), number(text.parse::<f64>().expect("number")));
    }
    readings
}

fn patch(name: &str, patch_type: &str, start_face: usize, faces: usize) -> SolverRuntimePatchRange {
    SolverRuntimePatchRange {
        name: name.to_string(),
        patch_type: patch_type.to_string(),
        start_face,
        faces,
    }
}

fn two_cell_line_mesh() -> Mesh {
    SolverRuntimeMeshData {
        points: 0,
        cells: 2,
        faces: 3,
        internal_faces: 1,
        boundary_faces: 2,
        owner: vec![0, 0, 1],
        neighbour: vec![None, Some(1), None],
        patches: vec![patch("left", "patch", 0, 1), patch("right", "patch", 2, 1)],
        face_centres: vec![[0.0, 0.5, 0.5], [1.0, 0.5, 0.5], [2.0, 0.5, 0.5]],
        face_area_vectors: vec![[-1.0, 0.0, 0.0], [1.0, 0.0, 0.0], [1.0, 0.0, 0.0]],
        cell_centres: vec![[0.5, 0.5, 0.5], [1.5, 0.5, 0.5]],
        cell_volumes: vec![1.0, 1.0],
        min_face_area: 1.0,
        max_face_area: 1.0,
        min_cell_volume: 1.0,
        max_cell_volume: 1.0,
        total_cell_volume: 2.0,
        non_positive_cell_volumes: 0,
    }
}

fn two_cell_flow_mesh() -> Mesh {
    SolverRuntimeMeshData {
        points: 0,
        cells: 2,
        faces: 3,
        internal_faces: 1,
        boundary_faces: 2,
        owner: vec![0, 0, 1],
        neighbour: vec![Some(1), None, None],
        patches: vec![patch("inlet", "patch", 1, 1), patch("outlet", "patch", 2, 1)],
        face_centres: vec![[0.5, 0.0, 0.0], [0.0, 0.0, 0.0], [1.0, 0.0, 0.0]],
        face_area_vectors: vec![[1.0, 0.0, 0.0], [-1.0, 0.0, 0.0], [1.0, 0.0, 0.0]],
        cell_centres: vec![[0.25, 0.0, 0.0], [0.75, 0.0, 0.0]],
        cell_volumes: vec![0.5, 0.5],
        min_face_area: 1.0,
        max_face_area: 1.0,
        min_cell_volume: 0.5,
        max_cell_volume: 0.5,
        total_cell_volume: 1.0,
        non_positive_cell_volumes: 0,
    }
}

fn velocity_field() -> FieldFile {
    FieldFile {
        path: "case/0/U".to_string(),
        region: None,
        name: "U".to_string(),
        class_name: Some("volVectorField".to_string()),
        dimensions: None,
        internal_field: None,
        boundary_patches: vec![
            FieldBoundaryPatch {
                name: "inlet".to_string(),
                patch_type: Some("fixedValue".to_string()),
                value: Some(FieldValueSummary::Uniform("(1 0 0)".to_string())),
            },
            FieldBoundaryPatch {
                name: "outlet".to_string(),
                patch_type: Some("zeroGradient".to_string()),
                value: None,
            },
        ],
    }
}

fn scalar_field(boundary_patches: Vec<FieldBoundaryPatch>) -> FieldFile {
    FieldFile {
        path: "0/T".to_string(),
        region: None,
        name: "T".to_string(),
        class_name: Some("volScalarField".to_string()),
        dimensions: None,
        internal_field: None,
        boundary_patches,
    }
}

/// The velocity treatments with the vectors that the values stand for.
fn velocity_treatments(mesh: &Mesh) -> Vec<FaceBoundaryTreatment<[f64; 3]>> {
    let readings = readings_of(&["1", "0"]);
    let field = velocity_field();
    let found = face_treatments(&readings, FlowField::Velocity, mesh, &field, &vec![None, None])
        .expect("U boundary");
    found
        .iter()
        .map(|treatment| match treatment {
            FaceBoundaryTreatment::FixedValue(FlowValue::AtRest) => {
                FaceBoundaryTreatment::FixedValue([0.0, 0.0, 0.0])
            }
            FaceBoundaryTreatment::FixedValue(FlowValue::Given { patch, offset }) => {
                assert_eq!((*patch, *offset), (0, 0));
                FaceBoundaryTreatment::FixedValue([1.0, 0.0, 0.0])
            }
            FaceBoundaryTreatment::ZeroGradient => FaceBoundaryTreatment::ZeroGradient,
            FaceBoundaryTreatment::Constraint => FaceBoundaryTreatment::Constraint,
        })
        .collect()
}

/// The diffusion coefficient of a face: its area over the distance.
fn coefficient(mesh: &Mesh, diffusivity: f64, face: usize) -> f64 {
    let from = mesh.cell_centres[mesh.owner[face]];
    let to = match mesh.neighbour[face] {
        Some(other) => mesh.cell_centres[other],
        None => mesh.face_centres[face],
    };
    diffusivity * mesh.face_area_vectors[face][0].abs() / (to[0] - from[0]).abs()
}

fn matvec(matrix: &CsrMatrix<f64>, x: &[f64]) -> Vec<f64> {
    let mut product = vec![0.0; matrix.rows()];
    for (row, entry) in product.iter_mut().enumerate() {
        for place in matrix.row_offsets()[row]..matrix.row_offsets()[row + 1] {
            *entry += matrix.values()[place] * x[matrix.col_indices()[place]];
        }
    }
    product
}

fn assert_close(left: f64, right: f64) {
    assert!((left - right).abs() <= 1.0e-12, "expected {left} to be close to {right}");
}

fn assert_close_vec(left: &[f64], right: &[f64]) {
    assert_eq!(left.len(), right.len());
    for (&left, &right) in left.iter().zip(right) {
        assert_close(left, right);
    }
}

/// The diffusion matrix, its right-hand side and its treatments.
fn assembled(
    mesh: &Mesh,
    options: &ScalarDiffusionOptions<f64>,
) -> (CsrMatrix<f64>, Vec<f64>, ferrum::stencil::FaceCounts) {
    let treatments = boundary_conditions_by_face(mesh, options).expect("treatments");
    let stencil = diffusion_stencil(mesh, &treatments);
    let mut rows = Vec::new();
    for row in &stencil.rows {
        let mut entries = Vec::new();
        for entry in row {
            let mut sum = 0.0;
            for term in &entry.terms {
                let value = coefficient(mesh, options.diffusivity, term.face);
                sum += if term.positive { value } else { -value };
            }
            entries.push((entry.column, sum));
        }
        rows.push(entries);
    }
    let mut rhs = Vec::new();
    for (cell, faces) in diffusion_sources(mesh, &treatments).iter().enumerate() {
        let mut sum = options.source * mesh.cell_volumes[cell];
        for face in faces {
            if let FaceBoundaryTreatment::FixedValue(value) = treatments[*face] {
                sum += coefficient(mesh, options.diffusivity, *face) * value;
            }
        }
        rhs.push(sum);
    }
    let matrix = CsrMatrix::from_rows(rows, mesh.cells).expect("matrix");
    (matrix, rhs, stencil.counts)
}

/// Conjugate gradients from zero.
fn solve(matrix: &CsrMatrix<f64>, rhs: &[f64], limit: usize, tolerance: f64) -> (Vec<f64>, bool) {
    let dot = |a: &[f64], b: &[f64]| a.iter().zip(b).map(|(a, b)| a * b).sum::<f64>();
    let mut x = vec![0.0; rhs.len()];
    let mut r = rhs.to_vec();
    let mut p = r.clone();
    let mut squared = dot(&r, &r);
    let mut done = 0;
    loop {
        match next_step(done, limit, squared.sqrt() <= tolerance) {
            SolveStep::Converged(_) => return (x, true),
            SolveStep::Exhausted(_) => return (x, false),
            SolveStep::Iterate(_) => {
                let ap = matvec(matrix, &p);
                let alpha = squared / dot(&p, &ap);
                for i in 0..x.len() {
                    x[i] += alpha * p[i];
                    r[i] -= alpha * ap[i];
                }
                let next = dot(&r, &r);
                for i in 0..p.len() {
                    p[i] = r[i] + next / squared * p[i];
                }
                squared = next;
                done += 1;
            }
        }
    }
}

#[test]
fn assembles_and_solves_two_cell_dirichlet_diffusion() {
    let mesh = two_cell_line_mesh();
    let options = ScalarDiffusionOptions {
        diffusivity: 1.0,
        source: 0.0,
        default_boundary: ScalarBoundaryCondition::ZeroGradient,
        patch_boundary_conditions: vec![
            ScalarPatchBoundaryCondition {
                patch: "left".to_string(),
                condition: ScalarBoundaryCondition::FixedValue(1.0),
            },
            ScalarPatchBoundaryCondition {
                patch: "right".to_string(),
                condition: ScalarBoundaryCondition::FixedValue(0.0),
            },
        ],
    };
    let (matrix, rhs, counts) = assembled(&mesh, &options);

    assert_eq!(counts.internal_faces, 1);
    assert_eq!(counts.fixed_value_faces, 2);
    assert_eq!(counts.zero_gradient_faces, 0);
    assert_close(coefficient(&mesh, 1.0, 1), 1.0);
    assert_close(coefficient(&mesh, 1.0, 0), 2.0);
    assert_eq!(matrix.rows(), 2);
    assert_eq!(matrix.cols(), 2);
    assert_eq!(matrix.nnz(), 4);
    assert_close_vec(&matvec(&matrix, &[1.0, 1.0]), &[2.0, 2.0]);
    assert_close_vec(&rhs, &[2.0, 0.0]);

    let (solution, converged) = solve(&matrix, &rhs, 8, 1.0e-12);
    assert!(converged);
    assert_close_vec(&solution, &[0.75, 0.25]);
}

#[test]
fn applies_uniform_volume_source_to_rhs() {
    let mesh = two_cell_line_mesh();
    let options = ScalarDiffusionOptions {
        diffusivity: 2.0,
        source: 3.0,
        default_boundary: ScalarBoundaryCondition::ZeroGradient,
        patch_boundary_conditions: Vec::new(),
    };
    let (_, rhs, counts) = assembled(&mesh, &options);

    assert_eq!(counts.internal_faces, 1);
    assert_eq!(counts.fixed_value_faces, 0);
    assert_eq!(counts.zero_gradient_faces, 2);
    assert_close_vec(&rhs, &[3.0, 3.0]);
}

#[test]
fn treats_empty_wedge_and_symmetry_as_constraints() {
    for patch_type in ["empty", "wedge", "symmetryPlane"] {
        let mut mesh = two_cell_line_mesh();
        mesh.patches[0].patch_type = patch_type.to_string();
        let options = ScalarDiffusionOptions {
            diffusivity: 1.0,
            source: 0.0,
            default_boundary: ScalarBoundaryCondition::FixedValue(1.0),
            patch_boundary_conditions: Vec::new(),
        };
        let (_, _, counts) = assembled(&mesh, &options);

        assert_eq!(counts.constraint_faces, 1);
        assert_eq!(counts.fixed_value_faces, 1);
    }
}

#[test]
fn rejects_fixed_value_on_constraint_patch() {
    let mut mesh = two_cell_line_mesh();
    mesh.patches[0].patch_type = "wedge".to_string();
    let options = ScalarDiffusionOptions {
        diffusivity: 1.0,
        source: 0.0,
        default_boundary: ScalarBoundaryCondition::ZeroGradient,
        patch_boundary_conditions: vec![ScalarPatchBoundaryCondition {
            patch: "left".to_string(),
            condition: ScalarBoundaryCondition::FixedValue(1.0),
        }],
    };

    let error = boundary_conditions_by_face(&mesh, &options)
        .expect_err("fixedValue on wedge should fail");

    assert!(error.to_string().contains("constraint patch"));
}

#[test]
fn builds_diffusion_options_from_scalar_field_boundaries() {
    let field = scalar_field(vec![
        FieldBoundaryPatch {
            name: "inlet".to_string(),
            patch_type: Some("fixedValue".to_string()),
            value: Some(FieldValueSummary::Uniform("293.15".to_string())),
        },
        FieldBoundaryPatch {
            name: "outlet".to_string(),
            patch_type: Some("zeroGradient".to_string()),
            value: None,
        },
        FieldBoundaryPatch {
            name: "front".to_string(),
            patch_type: Some("empty".to_string()),
            value: None,
        },
    ]);

    let readings = readings_of(&["293.15"]);
    let options = scalar_diffusion_options_from_field(&readings, &field, number(0.5), number(2.0))
        .expect("diffusion options");

    assert_eq!(options.diffusivity.display, number(0.5).display);
    assert_eq!(options.source.display, number(2.0).display);
    assert_eq!(options.patch_boundary_conditions.len(), 2);
    match &options.patch_boundary_conditions[0].condition {
        ScalarBoundaryCondition::FixedValue(value) => {
            assert_eq!(value.display, number(293.15).display)
        }
        other => panic!("unexpected condition: {other:?}"),
    }
    assert!(matches!(
        options.patch_boundary_conditions[1].condition,
        ScalarBoundaryCondition::ZeroGradient
    ));
}

#[test]
fn rejects_non_scalar_fixed_value_field_boundary() {
    let field = scalar_field(vec![FieldBoundaryPatch {
        name: "wall".to_string(),
        patch_type: Some("fixedValue".to_string()),
        value: Some(FieldValueSummary::Uniform("( 1 0 0 )".to_string())),
    }]);

    let readings = readings_of(&["1", "0"]);
    let error = scalar_diffusion_options_from_field(&readings, &field, number(1.0), number(0.0))
        .expect_err("vector fixedValue should fail");

    assert!(error.to_string().contains("exactly one scalar"));
}

#[test]
fn builds_source_driven_diffusion_options() {
    let options = PoiseuilleOptions {
        pressure_drop: number(2.0),
        dynamic_viscosity: number(0.001),
        length: number(1.0),
        diameter: number(0.01),
        wall_patches: vec!["wall".to_string()],
    };

    let diffusion =
        poiseuille_diffusion_options(&options, number(2.0 / 1.0)).expect("diffusion options");

    assert_eq!(diffusion.diffusivity.display, number(0.001).display);
    assert_eq!(diffusion.source.display, number(2.0).display);
    assert_eq!(diffusion.patch_boundary_conditions.len(), 1);
    assert_eq!(diffusion.patch_boundary_conditions[0].patch, "wall");
}

fn poisson3() -> CsrMatrix<f64> {
    CsrMatrix::new(
        3,
        3,
        vec![0, 2, 5, 7],
        vec![0, 1, 0, 1, 2, 1, 2],
        vec![2.0, -1.0, -1.0, 2.0, -1.0, -1.0, 2.0],
    )
    .expect("poisson matrix")
}

#[test]
fn multiplies_csr_matrix_vector() {
    let matrix = poisson3();

    assert_close_vec(&matvec(&matrix, &[1.0, 1.0, 1.0]), &[1.0, 0.0, 1.0]);
    assert_eq!(matrix.rows(), 3);
    assert_eq!(matrix.cols(), 3);
    assert_eq!(matrix.nnz(), 7);
}

#[test]
fn rejects_invalid_csr_layout() {
    let short_offsets = CsrMatrix::new(2, 2, vec![0, 1], vec![0], vec![1.0]);
    assert!(short_offsets.is_err());

    let bad_column = CsrMatrix::new(1, 1, vec![0, 1], vec![1], vec![1.0]);
    assert!(bad_column.is_err());

    let bad_nnz = CsrMatrix::new(1, 1, vec![0, 2], vec![0], vec![1.0]);
    assert!(bad_nnz.is_err());
}

fn test_mesh(patches: Vec<BoundaryPatch>) -> PolyMesh<[f64; 3]> {
    PolyMesh {
        path: "polyMesh".to_string(),
        points: vec![[0.0, 0.0, 0.0], [1.0, 0.0, 0.0], [0.0, 1.0, 0.0]],
        faces: vec![vec![0, 1, 2], vec![0, 2, 1], vec![1, 2, 0]],
        owner: vec![0, 0, 0],
        neighbour: Vec::new(),
        patches,
    }
}

#[test]
fn counts_special_patch_types() {
    let mesh = test_mesh(vec![
        BoundaryPatch {
            name: "front".to_string(),
            patch_type: "empty".to_string(),
            faces: 1,
            start_face: 0,
        },
        BoundaryPatch {
            name: "wedge_min".to_string(),
            patch_type: "wedge".to_string(),
            faces: 1,
            start_face: 1,
        },
        BoundaryPatch {
            name: "wedge_max".to_string(),
            patch_type: "wedge".to_string(),
            faces: 1,
            start_face: 2,
        },
    ]);

    let summary = validate_poly_mesh_patches("case", &mesh);
    assert_eq!(summary.empty_patches, 1);
    assert_eq!(summary.wedge_patches, 2);
    assert!(summary.warnings.is_empty());
}

#[test]
fn warns_for_odd_wedge_count_and_internal_range() {
    let mut mesh = test_mesh(vec![BoundaryPatch {
        name: "wedge_min".to_string(),
        patch_type: "wedge".to_string(),
        faces: 1,
        start_face: 0,
    }]);
    mesh.neighbour = vec![1];

    let summary = validate_poly_mesh_patches("case", &mesh);
    assert_eq!(summary.wedge_patches, 1);
    assert_eq!(summary.warnings.len(), 2);
}

/// What a face value comes to for given cell values.
fn value_of(value: FaceValue<[f64; 3]>, cells: &[[f64; 3]]) -> [f64; 3] {
    match value {
        FaceValue::Cell(cell) => cells[cell],
        FaceValue::Fixed(fixed) => fixed,
        FaceValue::Mean(one, other) => {
            let mut mean = [0.0; 3];
            for i in 0..3 {
                mean[i] = 0.5 * (cells[one][i] + cells[other][i]);
            }
            mean
        }
    }
}

#[test]
fn computes_owner_oriented_flux() {
    let mesh = two_cell_flow_mesh();
    let boundary = velocity_treatments(&mesh);
    let velocity = [[1.0, 0.0, 0.0], [3.0, 0.0, 0.0]];

    let mut flux = Vec::new();
    for face in 0..mesh.faces {
        let value = value_of(face_value(&mesh, &boundary, face), &velocity);
        let area = mesh.face_area_vectors[face];
        flux.push(value[0] * area[0] + value[1] * area[1] + value[2] * area[2]);
    }

    assert_eq!(flux.len(), 3);
    assert_close(flux[0], 2.0);
    assert_close(flux[1], -1.0);
    assert_close(flux[2], 3.0);
}

#[test]
fn selects_upwind_momentum_face_value_from_flux_direction() {
    let mesh = two_cell_flow_mesh();
    let boundary = velocity_treatments(&mesh);
    let velocity = [[5.0, 0.0, 0.0], [3.0, 0.0, 0.0]];

    let owner_to_neighbour = value_of(upwind_face_value(&mesh, &boundary, 0, true), &velocity);
    let neighbour_to_owner = value_of(upwind_face_value(&mesh, &boundary, 0, false), &velocity);
    let inlet_inflow = value_of(upwind_face_value(&mesh, &boundary, 1, false), &velocity);
    let outlet_outflow = value_of(upwind_face_value(&mesh, &boundary, 2, true), &velocity);

    assert_close(owner_to_neighbour[0], 5.0);
    assert_close(neighbour_to_owner[0], 3.0);
    assert_close(inlet_inflow[0], 1.0);
    assert_close(outlet_outflow[0], 3.0);
}

#[test]
fn assembles_implicit_upwind_momentum_convection() {
    let mesh = two_cell_flow_mesh();
    let boundary = velocity_treatments(&mesh);
    let flux = [1.0, -2.0, 3.0];
    let density = 2.0;
    let outward: Vec<bool> = flux.iter().map(|flux| *flux >= 0.0).collect();
    let term_value = |term: &MomentumTerm| {
        let size = if term.convective {
            density * flux[term.face]
        } else {
            coefficient(&mesh, 1.0, term.face)
        };
        if term.positive { size } else { -size }
    };

    let mut rows = Vec::new();
    for row in &momentum_stencil(&mesh, &boundary, &outward) {
        let mut entries = Vec::new();
        for entry in row {
            entries.push((entry.column, entry.terms.iter().map(term_value).sum::<f64>()));
        }
        rows.push(entries);
    }
    let matrix = CsrMatrix::from_rows(rows, 2).expect("momentum system");
    let mut rhs = Vec::new();
    for terms in &momentum_sources(&mesh, &boundary, &outward) {
        let mut sum = 0.0;
        for term in terms {
            if let FaceBoundaryTreatment::FixedValue(value) = boundary[term.face] {
                sum += term_value(term) * value[0];
            }
        }
        rhs.push(sum);
    }

    let diagonal = matrix.diagonal().expect("diagonal");
    assert_close(diagonal[0], 8.0);
    assert_close(diagonal[1], 8.0);
    assert_close(rhs[0], 8.0);
    assert_close(rhs[1], 0.0);

    let owner_column = matvec(&matrix, &[1.0, 0.0]);
    let neighbour_column = matvec(&matrix, &[0.0, 1.0]);
    assert_close(owner_column[0], 8.0);
    assert_close(owner_column[1], -4.0);
    assert_close(neighbour_column[0], -2.0);
    assert_close(neighbour_column[1], 8.0);
}

#[test]
fn fluxes_of_cells_add_up_to_the_boundary() {
    let mesh = two_cell_flow_mesh();
    let cells = cell_faces(&mesh);
    assert_eq!(
        cells,
        vec![
            vec![
                FaceTerm { face: 0, positive: true },
                FaceTerm { face: 1, positive: true },
            ],
            vec![
                FaceTerm { face: 0, positive: false },
                FaceTerm { face: 2, positive: true },
            ],
        ]
    );
    let flux = [7, -2, 5];
    let mut total = 0;
    for faces in &cells {
        for term in faces {
            total += if term.positive { flux[term.face] } else { -flux[term.face] };
        }
    }
    assert_eq!(total, flux[1] + flux[2]);
}
