//! Options and results of the laminar SIMPLE solver.

use crate::flow::{FlowBoundarySummary, LaminarSimpleLinearSolver, LaminarSimplePreconditioner};
use crate::reals::Real;
use crate::schemes::LaminarSimpleSchemes;
use vstd::prelude::*;

verus! {

/// The settings of a run.
#[derive(Debug)]
pub struct LaminarSimpleOptions {
    pub density: Real,
    pub dynamic_viscosity: Real,
    pub linear_solver: LaminarSimpleLinearSolver,
    pub momentum_linear_solver: LaminarSimpleLinearSolver,
    pub pressure_linear_solver: LaminarSimpleLinearSolver,
    pub momentum_preconditioner: LaminarSimplePreconditioner,
    pub pressure_preconditioner: LaminarSimplePreconditioner,
    pub linear_tolerance: Real,
    pub max_linear_iterations: usize,
    pub momentum_linear_tolerance: Real,
    pub pressure_linear_tolerance: Real,
    pub momentum_max_linear_iterations: usize,
    pub pressure_max_linear_iterations: usize,
    pub max_simple_iterations: usize,
    pub min_simple_iterations: usize,
    pub momentum_residual_control: Option<Real>,
    pub pressure_residual_control: Option<Real>,
    pub pressure_reference_cell: Option<usize>,
    pub pressure_reference_value: Real,
    pub non_orthogonal_correctors: usize,
    pub simple_consistent: bool,
    pub velocity_relaxation: Real,
    pub pressure_relaxation: Real,
    pub schemes: LaminarSimpleSchemes,
}

/// Why a run stopped.
#[derive(Clone, Copy, Debug, Eq, PartialEq, Structural)]
pub enum LaminarSimpleStopReason {
    Converged,
    MaxIterationsReached,
    ConvergenceCriteriaNotConfigured,
    MomentumSolverInvalidState,
    PressureSolverInvalidState,
    SolverInvalidState,
}

/// How the residuals compare with the limits that were set for them.
#[derive(Clone, Copy, Debug, Eq, PartialEq, Structural)]
pub struct LaminarSimpleResidualControlSummary {
    pub configured: bool,
    pub checked: bool,
    pub satisfied: bool,
    pub momentum_satisfied: Option<bool>,
    pub pressure_satisfied: Option<bool>,
}

/// How far the fluxes of the cells are from balance.
#[derive(Debug)]
pub struct ContinuitySummary {
    pub l2_norm: Real,
    pub max_abs: Real,
    pub sum_abs: Real,
    pub global_sum: Real,
}

/// The size of the operators at the end of a run.
#[derive(Debug)]
pub struct FlowOperatorSummary {
    pub phi_min: Real,
    pub phi_max: Real,
    pub phi_sum_abs: Real,
    pub grad_p_l2_norm: Real,
    pub hby_a_l2_norm: Real,
    pub div_phi_u_l2_norm: Real,
}

/// The linear systems that a run solved.
#[derive(Debug)]
pub struct LinearSolveSummary {
    pub momentum_predictors: usize,
    pub momentum_non_converged_predictors: usize,
    pub momentum_component_solves: usize,
    pub momentum_component_non_converged_solves: usize,
    pub pressure_correction_solves: usize,
    pub pressure_correction_non_converged_solves: usize,
    pub max_momentum_linear_iterations_per_simple: usize,
    pub max_pressure_linear_iterations_per_simple: usize,
    pub average_momentum_linear_iterations_per_simple: Real,
    pub average_pressure_linear_iterations_per_simple: Real,
    pub final_momentum_linear_converged: bool,
    pub final_pressure_linear_converged: bool,
}

/// The extent of a scalar field.
#[derive(Debug)]
pub struct ScalarDiagnosticSummary {
    pub min: Real,
    pub max: Real,
    pub l2_norm: Real,
    pub sum: Real,
    pub sum_abs: Real,
}

/// The extent of a vector field.
#[derive(Debug)]
pub struct VectorDiagnosticSummary {
    pub min_magnitude: Real,
    pub max_magnitude: Real,
    pub l2_norm: Real,
    pub x_min: Real,
    pub x_max: Real,
    pub y_min: Real,
    pub y_max: Real,
    pub z_min: Real,
    pub z_max: Real,
}

/// The extent of a flux through the faces.
#[derive(Debug)]
pub struct FaceFluxDiagnosticSummary {
    pub min: Real,
    pub max: Real,
    pub l2_norm: Real,
    pub sum: Real,
    pub sum_abs: Real,
    pub internal_sum_abs: Real,
    pub boundary_sum: Real,
    pub boundary_sum_abs: Real,
}

/// The extent of a matrix.
#[derive(Debug)]
pub struct MatrixDiagnosticSummary {
    pub rows: usize,
    pub cols: usize,
    pub nonzeros: usize,
    pub diagonal_min: Real,
    pub diagonal_max: Real,
    pub diagonal_sum_abs: Real,
    pub off_diagonal_sum_abs: Real,
    pub max_row_sum_abs: Real,
    pub max_row_off_diagonal_sum_abs: Real,
}

/// What the last pressure equation was made of.
#[derive(Debug)]
pub struct PressureAssemblyDiagnostics {
    pub r_au: ScalarDiagnosticSummary,
    pub r_at_u: ScalarDiagnosticSummary,
    pub hby_a: VectorDiagnosticSummary,
    pub phi_hby_a_before_adjust: FaceFluxDiagnosticSummary,
    pub phi_hby_a_after_adjust: FaceFluxDiagnosticSummary,
    pub pressure_source: ScalarDiagnosticSummary,
    pub pressure_equation_flux: FaceFluxDiagnosticSummary,
    pub pressure_matrix: MatrixDiagnosticSummary,
    pub pressure_flux: FaceFluxDiagnosticSummary,
    pub corrected_phi: FaceFluxDiagnosticSummary,
}

/// The extent of the fields at the end of a run.
#[derive(Debug)]
pub struct LaminarSimpleFieldSummary {
    pub velocity: VectorDiagnosticSummary,
    pub pressure: ScalarDiagnosticSummary,
}

/// One iteration of a run.
#[derive(Debug)]
pub struct LaminarSimpleIterationSummary {
    pub iteration: usize,
    pub continuity_before: ContinuitySummary,
    pub continuity_after: ContinuitySummary,
    pub pressure_correction_accepted: bool,
    pub momentum_linear_iterations: usize,
    pub momentum_linear_converged: bool,
    pub momentum_component_linear_converged: [bool; 3],
    pub pressure_linear_iterations: usize,
    pub pressure_linear_converged: bool,
    pub pressure_linear_solves: usize,
    pub pressure_linear_non_converged_solves: usize,
    pub momentum_initial_normalized_residual_norm: Real,
    pub momentum_residual_norm: Real,
    pub momentum_normalized_residual_norm: Real,
    pub momentum_component_initial_normalized_residual_norms: [Real; 3],
    pub momentum_component_residual_norms: [Real; 3],
    pub momentum_component_normalized_residual_norms: [Real; 3],
    pub momentum_diagonal_min: Real,
    pub momentum_diagonal_max: Real,
    pub momentum_h1_min: Real,
    pub momentum_h1_max: Real,
    pub pressure_correction_initial_normalized_residual_norm: Real,
    pub pressure_correction_residual_norm: Real,
    pub pressure_correction_normalized_residual_norm: Real,
    pub residual_control: LaminarSimpleResidualControlSummary,
    pub relative_velocity_change_l2: Real,
    pub relative_pressure_change_l2: Real,
    pub momentum_update_scale: Real,
    pub pressure_correction_update_scale: Real,
    pub adjust_phi_global_flux_before: Real,
    pub adjust_phi_global_flux_after: Real,
    pub adjust_phi_adjusted_faces: usize,
}

/// The outcome of a run.
#[derive(Debug)]
pub struct LaminarSimpleReport {
    pub cells: usize,
    pub faces: usize,
    pub internal_faces: usize,
    pub boundary_faces: usize,
    pub simple_iterations: usize,
    pub converged: bool,
    pub stop_reason: LaminarSimpleStopReason,
    pub residual_control: LaminarSimpleResidualControlSummary,
    pub linear_solve_summary: LinearSolveSummary,
    pub initial_continuity: ContinuitySummary,
    pub final_continuity: ContinuitySummary,
    pub final_momentum_initial_normalized_residual_norm: Real,
    pub final_momentum_residual_norm: Real,
    pub final_momentum_normalized_residual_norm: Real,
    pub final_pressure_correction_initial_normalized_residual_norm: Real,
    pub final_pressure_correction_residual_norm: Real,
    pub final_pressure_correction_normalized_residual_norm: Real,
    pub total_momentum_linear_iterations: usize,
    pub total_pressure_linear_iterations: usize,
    pub operator_summary: FlowOperatorSummary,
    pub boundary_summary: FlowBoundarySummary,
    pub pressure_assembly: Option<PressureAssemblyDiagnostics>,
    pub fields: LaminarSimpleFieldSummary,
    pub history: Vec<LaminarSimpleIterationSummary>,
}

/// The word for a reason to stop.
pub open spec fn stop_reason_name(reason: LaminarSimpleStopReason) -> Seq<char> {
    match reason {
        LaminarSimpleStopReason::Converged => "converged"@,
        LaminarSimpleStopReason::MaxIterationsReached => "max-iterations-reached"@,
        LaminarSimpleStopReason::ConvergenceCriteriaNotConfigured => {
            "convergence-criteria-not-configured"@
        },
        LaminarSimpleStopReason::MomentumSolverInvalidState => "momentum-solver-invalid-state"@,
        LaminarSimpleStopReason::PressureSolverInvalidState => "pressure-solver-invalid-state"@,
        LaminarSimpleStopReason::SolverInvalidState => "solver-invalid-state"@,
    }
}

impl LaminarSimpleStopReason {
    /// The word for the reason.
    pub fn to_string(&self) -> (name: String)
        ensures
            name@ == stop_reason_name(*self),
    {
        match self {
            LaminarSimpleStopReason::Converged => "converged".to_string(),
            LaminarSimpleStopReason::MaxIterationsReached => "max-iterations-reached".to_string(),
            LaminarSimpleStopReason::ConvergenceCriteriaNotConfigured => {
                "convergence-criteria-not-configured".to_string()
            },
            LaminarSimpleStopReason::MomentumSolverInvalidState => {
                "momentum-solver-invalid-state".to_string()
            },
            LaminarSimpleStopReason::PressureSolverInvalidState => {
                "pressure-solver-invalid-state".to_string()
            },
            LaminarSimpleStopReason::SolverInvalidState => "solver-invalid-state".to_string(),
        }
    }
}

/// The word for how the residuals compare with their limits.
pub open spec fn residual_control_name(summary: LaminarSimpleResidualControlSummary) -> Seq<char> {
    if !summary.configured {
        "not-configured"@
    } else if !summary.checked {
        "not-checked"@
    } else if summary.satisfied {
        "satisfied"@
    } else {
        "not-satisfied"@
    }
}

/// The word for how the residuals compare with their limits.
pub fn residual_control_state(summary: &LaminarSimpleResidualControlSummary) -> (name: &'static str)
    ensures
        name@ == residual_control_name(*summary),
{
    if !summary.configured {
        "not-configured"
    } else if !summary.checked {
        "not-checked"
    } else if summary.satisfied {
        "satisfied"
    } else {
        "not-satisfied"
    }
}

} // verus!
