//! The JSON report of a laminar SIMPLE run.

use crate::flow;
use crate::flow::FlowBoundarySummary;
use crate::json;
use crate::json::JsonObject;
use crate::layout;
use crate::reals;
use crate::reals::Real;
use crate::schemes;
use crate::schemes::LaminarSimpleSchemes;
use crate::simple;
use crate::simple::{
    ContinuitySummary, FaceFluxDiagnosticSummary, FlowOperatorSummary, LaminarSimpleFieldSummary,
    LaminarSimpleIterationSummary, LaminarSimpleOptions, LaminarSimpleReport, LinearSolveSummary,
    MatrixDiagnosticSummary, PressureAssemblyDiagnostics, ScalarDiagnosticSummary,
    VectorDiagnosticSummary,
};
use crate::text;
use vstd::prelude::*;

verus! {

/// The schemes of a run.
pub open spec fn schemes_json(chosen: LaminarSimpleSchemes) -> Seq<char> {
    json::object(
        4,
        Seq::empty()
            .push(("gradP"@, json::string(schemes::gradient_name(chosen.grad_p))))
            .push(("gradU"@, json::string(schemes::gradient_name(chosen.grad_u))))
            .push(("divPhiU"@, json::string(schemes::convection_name(chosen.div_phi_u))))
            .push(("laplacian"@, json::string(schemes::laplacian_name(chosen.laplacian))))
            .push(
                ("interpolation"@, json::string(schemes::interpolation_name(chosen.interpolation))),
            )
            .push(("snGrad"@, json::string(schemes::sn_grad_name(chosen.sn_grad)))),
    )
}

fn schemes_text(chosen: &LaminarSimpleSchemes) -> (out: String)
    ensures
        out@ == schemes_json(*chosen),
{
    let mut object = JsonObject::new();
    object.put("gradP", json::string_text(chosen.grad_p.to_string().as_str()));
    object.put("gradU", json::string_text(chosen.grad_u.to_string().as_str()));
    object.put("divPhiU", json::string_text(chosen.div_phi_u.to_string().as_str()));
    object.put("laplacian", json::string_text(chosen.laplacian.to_string().as_str()));
    object.put("interpolation", json::string_text(chosen.interpolation.to_string().as_str()));
    object.put("snGrad", json::string_text(chosen.sn_grad.to_string().as_str()));
    object.render(4)
}

/// The settings of a run.
pub open spec fn options_json(options: LaminarSimpleOptions) -> Seq<char> {
    json::object(
        2,
        Seq::empty()
            .push(("linearSolver"@, json::string(flow::solver_name(options.linear_solver))))
            .push(
                (
                    "momentumLinearSolver"@,
                    json::string(flow::solver_name(options.momentum_linear_solver)),
                ),
            )
            .push(
                (
                    "momentumPreconditioner"@,
                    json::string(flow::preconditioner_name(options.momentum_preconditioner)),
                ),
            )
            .push(
                (
                    "pressureLinearSolver"@,
                    json::string(flow::solver_name(options.pressure_linear_solver)),
                ),
            )
            .push(
                (
                    "pressurePreconditioner"@,
                    json::string(flow::preconditioner_name(options.pressure_preconditioner)),
                ),
            )
            .push(("density"@, json::number(options.density@)))
            .push(("dynamicViscosity"@, json::number(options.dynamic_viscosity@)))
            .push(("maxSimpleIterations"@, text::decimal(options.max_simple_iterations as nat)))
            .push(("minSimpleIterations"@, text::decimal(options.min_simple_iterations as nat)))
            .push(
                (
                    "momentumResidualControl"@,
                    json::opt_number(reals::opt_real(options.momentum_residual_control)),
                ),
            )
            .push(
                (
                    "pressureResidualControl"@,
                    json::opt_number(reals::opt_real(options.pressure_residual_control)),
                ),
            )
            .push(("pressureReferenceCell"@, json::opt_rounded(options.pressure_reference_cell)))
            .push(("pressureReferenceValue"@, json::number(options.pressure_reference_value@)))
            .push(
                (
                    "nonOrthogonalCorrectors"@,
                    text::decimal(options.non_orthogonal_correctors as nat),
                ),
            )
            .push(("consistent"@, text::bool_text(options.simple_consistent)))
            .push(("maxLinearIterations"@, text::decimal(options.max_linear_iterations as nat)))
            .push(
                (
                    "momentumMaxLinearIterations"@,
                    text::decimal(options.momentum_max_linear_iterations as nat),
                ),
            )
            .push(
                (
                    "pressureMaxLinearIterations"@,
                    text::decimal(options.pressure_max_linear_iterations as nat),
                ),
            )
            .push(("linearTolerance"@, json::number(options.linear_tolerance@)))
            .push(("momentumLinearTolerance"@, json::number(options.momentum_linear_tolerance@)))
            .push(("pressureLinearTolerance"@, json::number(options.pressure_linear_tolerance@)))
            .push(("velocityRelaxation"@, json::number(options.velocity_relaxation@)))
            .push(("pressureRelaxation"@, json::number(options.pressure_relaxation@)))
            .push(("schemes"@, schemes_json(options.schemes))),
    )
}

fn options_text(options: &LaminarSimpleOptions) -> (out: String)
    ensures
        out@ == options_json(*options),
{
    let mut object = JsonObject::new();
    object.put("linearSolver", json::string_text(options.linear_solver.to_string().as_str()));
    object.put(
        "momentumLinearSolver",
        json::string_text(options.momentum_linear_solver.to_string().as_str()),
    );
    object.put(
        "momentumPreconditioner",
        json::string_text(options.momentum_preconditioner.to_string().as_str()),
    );
    object.put(
        "pressureLinearSolver",
        json::string_text(options.pressure_linear_solver.to_string().as_str()),
    );
    object.put(
        "pressurePreconditioner",
        json::string_text(options.pressure_preconditioner.to_string().as_str()),
    );
    object.number("density", &options.density);
    object.number("dynamicViscosity", &options.dynamic_viscosity);
    object.count("maxSimpleIterations", options.max_simple_iterations);
    object.count("minSimpleIterations", options.min_simple_iterations);
    object.opt_number("momentumResidualControl", &options.momentum_residual_control);
    object.opt_number("pressureResidualControl", &options.pressure_residual_control);
    object.put(
        "pressureReferenceCell",
        json::opt_rounded_text(options.pressure_reference_cell),
    );
    object.number("pressureReferenceValue", &options.pressure_reference_value);
    object.count("nonOrthogonalCorrectors", options.non_orthogonal_correctors);
    object.flag("consistent", options.simple_consistent);
    object.count("maxLinearIterations", options.max_linear_iterations);
    object.count("momentumMaxLinearIterations", options.momentum_max_linear_iterations);
    object.count("pressureMaxLinearIterations", options.pressure_max_linear_iterations);
    object.number("linearTolerance", &options.linear_tolerance);
    object.number("momentumLinearTolerance", &options.momentum_linear_tolerance);
    object.number("pressureLinearTolerance", &options.pressure_linear_tolerance);
    object.number("velocityRelaxation", &options.velocity_relaxation);
    object.number("pressureRelaxation", &options.pressure_relaxation);
    object.put("schemes", schemes_text(&options.schemes));
    object.render(2)
}

/// How far the fluxes are from balance.
pub open spec fn continuity_json(indent: nat, summary: ContinuitySummary) -> Seq<char> {
    json::object(
        indent,
        Seq::empty()
            .push(("l2Norm"@, json::number(summary.l2_norm@)))
            .push(("maxAbs"@, json::number(summary.max_abs@)))
            .push(("sumAbs"@, json::number(summary.sum_abs@)))
            .push(("globalSum"@, json::number(summary.global_sum@))),
    )
}

fn continuity_text(indent: usize, summary: &ContinuitySummary) -> (out: String)
    requires
        indent + 2 <= usize::MAX,
    ensures
        out@ == continuity_json(indent as nat, *summary),
{
    let mut object = JsonObject::new();
    object.number("l2Norm", &summary.l2_norm);
    object.number("maxAbs", &summary.max_abs);
    object.number("sumAbs", &summary.sum_abs);
    object.number("globalSum", &summary.global_sum);
    object.render(indent)
}

/// The extent of a scalar field.
pub open spec fn scalar_json(indent: nat, summary: ScalarDiagnosticSummary) -> Seq<char> {
    json::object(
        indent,
        Seq::empty()
            .push(("min"@, json::number(summary.min@)))
            .push(("max"@, json::number(summary.max@)))
            .push(("l2Norm"@, json::number(summary.l2_norm@)))
            .push(("sum"@, json::number(summary.sum@)))
            .push(("sumAbs"@, json::number(summary.sum_abs@))),
    )
}

fn scalar_text(indent: usize, summary: &ScalarDiagnosticSummary) -> (out: String)
    requires
        indent + 2 <= usize::MAX,
    ensures
        out@ == scalar_json(indent as nat, *summary),
{
    let mut object = JsonObject::new();
    object.number("min", &summary.min);
    object.number("max", &summary.max);
    object.number("l2Norm", &summary.l2_norm);
    object.number("sum", &summary.sum);
    object.number("sumAbs", &summary.sum_abs);
    object.render(indent)
}

/// The extent of a vector field.
pub open spec fn vector_json(indent: nat, summary: VectorDiagnosticSummary) -> Seq<char> {
    json::object(
        indent,
        Seq::empty()
            .push(("minMagnitude"@, json::number(summary.min_magnitude@)))
            .push(("maxMagnitude"@, json::number(summary.max_magnitude@)))
            .push(("l2Norm"@, json::number(summary.l2_norm@)))
            .push(("xMin"@, json::number(summary.x_min@)))
            .push(("xMax"@, json::number(summary.x_max@)))
            .push(("yMin"@, json::number(summary.y_min@)))
            .push(("yMax"@, json::number(summary.y_max@)))
            .push(("zMin"@, json::number(summary.z_min@)))
            .push(("zMax"@, json::number(summary.z_max@))),
    )
}

fn vector_text(indent: usize, summary: &VectorDiagnosticSummary) -> (out: String)
    requires
        indent + 2 <= usize::MAX,
    ensures
        out@ == vector_json(indent as nat, *summary),
{
    let mut object = JsonObject::new();
    object.number("minMagnitude", &summary.min_magnitude);
    object.number("maxMagnitude", &summary.max_magnitude);
    object.number("l2Norm", &summary.l2_norm);
    object.number("xMin", &summary.x_min);
    object.number("xMax", &summary.x_max);
    object.number("yMin", &summary.y_min);
    object.number("yMax", &summary.y_max);
    object.number("zMin", &summary.z_min);
    object.number("zMax", &summary.z_max);
    object.render(indent)
}

/// The extent of a flux.
pub open spec fn face_flux_json(indent: nat, summary: FaceFluxDiagnosticSummary) -> Seq<char> {
    json::object(
        indent,
        Seq::empty()
            .push(("min"@, json::number(summary.min@)))
            .push(("max"@, json::number(summary.max@)))
            .push(("l2Norm"@, json::number(summary.l2_norm@)))
            .push(("sum"@, json::number(summary.sum@)))
            .push(("sumAbs"@, json::number(summary.sum_abs@)))
            .push(("internalSumAbs"@, json::number(summary.internal_sum_abs@)))
            .push(("boundarySum"@, json::number(summary.boundary_sum@)))
            .push(("boundarySumAbs"@, json::number(summary.boundary_sum_abs@))),
    )
}

fn face_flux_text(indent: usize, summary: &FaceFluxDiagnosticSummary) -> (out: String)
    requires
        indent + 2 <= usize::MAX,
    ensures
        out@ == face_flux_json(indent as nat, *summary),
{
    let mut object = JsonObject::new();
    object.number("min", &summary.min);
    object.number("max", &summary.max);
    object.number("l2Norm", &summary.l2_norm);
    object.number("sum", &summary.sum);
    object.number("sumAbs", &summary.sum_abs);
    object.number("internalSumAbs", &summary.internal_sum_abs);
    object.number("boundarySum", &summary.boundary_sum);
    object.number("boundarySumAbs", &summary.boundary_sum_abs);
    object.render(indent)
}

/// The extent of a matrix.
pub open spec fn matrix_json(indent: nat, summary: MatrixDiagnosticSummary) -> Seq<char> {
    json::object(
        indent,
        Seq::empty()
            .push(("rows"@, text::decimal(summary.rows as nat)))
            .push(("cols"@, text::decimal(summary.cols as nat)))
            .push(("nonzeros"@, text::decimal(summary.nonzeros as nat)))
            .push(("diagonalMin"@, json::number(summary.diagonal_min@)))
            .push(("diagonalMax"@, json::number(summary.diagonal_max@)))
            .push(("diagonalSumAbs"@, json::number(summary.diagonal_sum_abs@)))
            .push(("offDiagonalSumAbs"@, json::number(summary.off_diagonal_sum_abs@)))
            .push(("maxRowSumAbs"@, json::number(summary.max_row_sum_abs@)))
            .push(
                ("maxRowOffDiagonalSumAbs"@, json::number(summary.max_row_off_diagonal_sum_abs@)),
            ),
    )
}

fn matrix_text(indent: usize, summary: &MatrixDiagnosticSummary) -> (out: String)
    requires
        indent + 2 <= usize::MAX,
    ensures
        out@ == matrix_json(indent as nat, *summary),
{
    let mut object = JsonObject::new();
    object.count("rows", summary.rows);
    object.count("cols", summary.cols);
    object.count("nonzeros", summary.nonzeros);
    object.number("diagonalMin", &summary.diagonal_min);
    object.number("diagonalMax", &summary.diagonal_max);
    object.number("diagonalSumAbs", &summary.diagonal_sum_abs);
    object.number("offDiagonalSumAbs", &summary.off_diagonal_sum_abs);
    object.number("maxRowSumAbs", &summary.max_row_sum_abs);
    object.number("maxRowOffDiagonalSumAbs", &summary.max_row_off_diagonal_sum_abs);
    object.render(indent)
}

/// The size of the operators.
pub open spec fn operators_json(summary: FlowOperatorSummary) -> Seq<char> {
    json::object(
        2,
        Seq::empty()
            .push(("phiMin"@, json::number(summary.phi_min@)))
            .push(("phiMax"@, json::number(summary.phi_max@)))
            .push(("phiSumAbs"@, json::number(summary.phi_sum_abs@)))
            .push(("gradPL2Norm"@, json::number(summary.grad_p_l2_norm@)))
            .push(("hbyAL2Norm"@, json::number(summary.hby_a_l2_norm@)))
            .push(("divPhiUL2Norm"@, json::number(summary.div_phi_u_l2_norm@))),
    )
}

fn operators_text(summary: &FlowOperatorSummary) -> (out: String)
    ensures
        out@ == operators_json(*summary),
{
    let mut object = JsonObject::new();
    object.number("phiMin", &summary.phi_min);
    object.number("phiMax", &summary.phi_max);
    object.number("phiSumAbs", &summary.phi_sum_abs);
    object.number("gradPL2Norm", &summary.grad_p_l2_norm);
    object.number("hbyAL2Norm", &summary.hby_a_l2_norm);
    object.number("divPhiUL2Norm", &summary.div_phi_u_l2_norm);
    object.render(2)
}

/// The treatment of the boundary faces.
pub open spec fn boundaries_json(summary: FlowBoundarySummary) -> Seq<char> {
    json::object(
        2,
        Seq::empty()
            .push(
                (
                    "velocityFixedValueFaces"@,
                    text::decimal(summary.velocity_fixed_value_faces as nat),
                ),
            )
            .push(
                (
                    "velocityZeroGradientFaces"@,
                    text::decimal(summary.velocity_zero_gradient_faces as nat),
                ),
            )
            .push(
                (
                    "velocityInletOutletFaces"@,
                    text::decimal(summary.velocity_inlet_outlet_faces as nat),
                ),
            )
            .push(
                (
                    "velocityConstraintFaces"@,
                    text::decimal(summary.velocity_constraint_faces as nat),
                ),
            )
            .push(
                (
                    "pressureFixedValueFaces"@,
                    text::decimal(summary.pressure_fixed_value_faces as nat),
                ),
            )
            .push(
                (
                    "pressureZeroGradientFaces"@,
                    text::decimal(summary.pressure_zero_gradient_faces as nat),
                ),
            )
            .push(
                (
                    "pressureConstraintFaces"@,
                    text::decimal(summary.pressure_constraint_faces as nat),
                ),
            ),
    )
}

fn boundaries_text(summary: &FlowBoundarySummary) -> (out: String)
    ensures
        out@ == boundaries_json(*summary),
{
    let mut object = JsonObject::new();
    object.count("velocityFixedValueFaces", summary.velocity_fixed_value_faces);
    object.count("velocityZeroGradientFaces", summary.velocity_zero_gradient_faces);
    object.count("velocityInletOutletFaces", summary.velocity_inlet_outlet_faces);
    object.count("velocityConstraintFaces", summary.velocity_constraint_faces);
    object.count("pressureFixedValueFaces", summary.pressure_fixed_value_faces);
    object.count("pressureZeroGradientFaces", summary.pressure_zero_gradient_faces);
    object.count("pressureConstraintFaces", summary.pressure_constraint_faces);
    object.render(2)
}

/// The linear systems that were solved.
pub open spec fn linear_solves_json(summary: LinearSolveSummary) -> Seq<char> {
    json::object(
        2,
        Seq::empty()
            .push(("momentumPredictors"@, text::decimal(summary.momentum_predictors as nat)))
            .push(
                (
                    "momentumNonConvergedPredictors"@,
                    text::decimal(summary.momentum_non_converged_predictors as nat),
                ),
            )
            .push(
                (
                    "momentumComponentSolves"@,
                    text::decimal(summary.momentum_component_solves as nat),
                ),
            )
            .push(
                (
                    "momentumComponentNonConvergedSolves"@,
                    text::decimal(summary.momentum_component_non_converged_solves as nat),
                ),
            )
            .push(
                (
                    "pressureCorrectionSolves"@,
                    text::decimal(summary.pressure_correction_solves as nat),
                ),
            )
            .push(
                (
                    "pressureCorrectionNonConvergedSolves"@,
                    text::decimal(summary.pressure_correction_non_converged_solves as nat),
                ),
            )
            .push(
                (
                    "maxMomentumLinearIterationsPerSimple"@,
                    text::decimal(summary.max_momentum_linear_iterations_per_simple as nat),
                ),
            )
            .push(
                (
                    "maxPressureLinearIterationsPerSimple"@,
                    text::decimal(summary.max_pressure_linear_iterations_per_simple as nat),
                ),
            )
            .push(
                (
                    "averageMomentumLinearIterationsPerSimple"@,
                    json::number(summary.average_momentum_linear_iterations_per_simple@),
                ),
            )
            .push(
                (
                    "averagePressureLinearIterationsPerSimple"@,
                    json::number(summary.average_pressure_linear_iterations_per_simple@),
                ),
            )
            .push(
                (
                    "finalMomentumLinearConverged"@,
                    text::bool_text(summary.final_momentum_linear_converged),
                ),
            )
            .push(
                (
                    "finalPressureLinearConverged"@,
                    text::bool_text(summary.final_pressure_linear_converged),
                ),
            ),
    )
}

fn linear_solves_text(summary: &LinearSolveSummary) -> (out: String)
    ensures
        out@ == linear_solves_json(*summary),
{
    let mut object = JsonObject::new();
    object.count("momentumPredictors", summary.momentum_predictors);
    object.count("momentumNonConvergedPredictors", summary.momentum_non_converged_predictors);
    object.count("momentumComponentSolves", summary.momentum_component_solves);
    object.count(
        "momentumComponentNonConvergedSolves",
        summary.momentum_component_non_converged_solves,
    );
    object.count("pressureCorrectionSolves", summary.pressure_correction_solves);
    object.count(
        "pressureCorrectionNonConvergedSolves",
        summary.pressure_correction_non_converged_solves,
    );
    object.count(
        "maxMomentumLinearIterationsPerSimple",
        summary.max_momentum_linear_iterations_per_simple,
    );
    object.count(
        "maxPressureLinearIterationsPerSimple",
        summary.max_pressure_linear_iterations_per_simple,
    );
    object.number(
        "averageMomentumLinearIterationsPerSimple",
        &summary.average_momentum_linear_iterations_per_simple,
    );
    object.number(
        "averagePressureLinearIterationsPerSimple",
        &summary.average_pressure_linear_iterations_per_simple,
    );
    object.flag("finalMomentumLinearConverged", summary.final_momentum_linear_converged);
    object.flag("finalPressureLinearConverged", summary.final_pressure_linear_converged);
    object.render(2)
}

/// What the last pressure equation was made of.
pub open spec fn assembly_json(found: PressureAssemblyDiagnostics) -> Seq<char> {
    json::object(
        2,
        Seq::empty()
            .push(("rAU"@, scalar_json(4, found.r_au)))
            .push(("rAtU"@, scalar_json(4, found.r_at_u)))
            .push(("HbyA"@, vector_json(4, found.hby_a)))
            .push(("phiHbyABeforeAdjust"@, face_flux_json(4, found.phi_hby_a_before_adjust)))
            .push(("phiHbyAAfterAdjust"@, face_flux_json(4, found.phi_hby_a_after_adjust)))
            .push(("pressureSource"@, scalar_json(4, found.pressure_source)))
            .push(("pressureEquationFlux"@, face_flux_json(4, found.pressure_equation_flux)))
            .push(("pressureMatrix"@, matrix_json(4, found.pressure_matrix)))
            .push(("pressureFlux"@, face_flux_json(4, found.pressure_flux)))
            .push(("correctedPhi"@, face_flux_json(4, found.corrected_phi))),
    )
}

fn assembly_text(found: &PressureAssemblyDiagnostics) -> (out: String)
    ensures
        out@ == assembly_json(*found),
{
    let mut object = JsonObject::new();
    object.put("rAU", scalar_text(4, &found.r_au));
    object.put("rAtU", scalar_text(4, &found.r_at_u));
    object.put("HbyA", vector_text(4, &found.hby_a));
    object.put("phiHbyABeforeAdjust", face_flux_text(4, &found.phi_hby_a_before_adjust));
    object.put("phiHbyAAfterAdjust", face_flux_text(4, &found.phi_hby_a_after_adjust));
    object.put("pressureSource", scalar_text(4, &found.pressure_source));
    object.put("pressureEquationFlux", face_flux_text(4, &found.pressure_equation_flux));
    object.put("pressureMatrix", matrix_text(4, &found.pressure_matrix));
    object.put("pressureFlux", face_flux_text(4, &found.pressure_flux));
    object.put("correctedPhi", face_flux_text(4, &found.corrected_phi));
    object.render(2)
}

/// What the last pressure equation was made of, or `null`.
pub open spec fn pressure_assembly_json(found: Option<PressureAssemblyDiagnostics>) -> Seq<char> {
    match found {
        Some(diagnostics) => assembly_json(diagnostics),
        None => "null"@,
    }
}

fn pressure_assembly_text(found: &Option<PressureAssemblyDiagnostics>) -> (out: String)
    ensures
        out@ == pressure_assembly_json(*found),
{
    match found {
        Some(diagnostics) => assembly_text(diagnostics),
        None => "null".to_string(),
    }
}

/// The extent of the fields.
pub open spec fn field_summary_json(fields: LaminarSimpleFieldSummary) -> Seq<char> {
    json::object(
        2,
        Seq::empty()
            .push(("velocity"@, vector_json(4, fields.velocity)))
            .push(("pressure"@, scalar_json(4, fields.pressure))),
    )
}

fn field_summary_text(fields: &LaminarSimpleFieldSummary) -> (out: String)
    ensures
        out@ == field_summary_json(*fields),
{
    let mut object = JsonObject::new();
    object.put("velocity", vector_text(4, &fields.velocity));
    object.put("pressure", scalar_text(4, &fields.pressure));
    object.render(2)
}

/// One iteration.
pub open spec fn iteration_json(item: LaminarSimpleIterationSummary) -> Seq<char> {
    json::object(
        4,
        Seq::empty()
            .push(("iteration"@, text::decimal(item.iteration as nat)))
            .push(("continuityBefore"@, continuity_json(6, item.continuity_before)))
            .push(("continuityAfter"@, continuity_json(6, item.continuity_after)))
            .push(
                ("pressureCorrectionAccepted"@, text::bool_text(item.pressure_correction_accepted)),
            )
            .push(
                (
                    "momentumLinearIterations"@,
                    text::decimal(item.momentum_linear_iterations as nat),
                ),
            )
            .push(("momentumLinearConverged"@, text::bool_text(item.momentum_linear_converged)))
            .push(
                (
                    "momentumComponentLinearConverged"@,
                    json::flags(item.momentum_component_linear_converged@),
                ),
            )
            .push(
                (
                    "pressureLinearIterations"@,
                    text::decimal(item.pressure_linear_iterations as nat),
                ),
            )
            .push(("pressureLinearConverged"@, text::bool_text(item.pressure_linear_converged)))
            .push(("pressureLinearSolves"@, text::decimal(item.pressure_linear_solves as nat)))
            .push(
                (
                    "pressureLinearNonConvergedSolves"@,
                    text::decimal(item.pressure_linear_non_converged_solves as nat),
                ),
            )
            .push(
                (
                    "momentumInitialResidual"@,
                    json::number(item.momentum_initial_normalized_residual_norm@),
                ),
            )
            .push(("momentumResidualNorm"@, json::number(item.momentum_residual_norm@)))
            .push(
                (
                    "momentumNormalizedResidualNorm"@,
                    json::number(item.momentum_normalized_residual_norm@),
                ),
            )
            .push(
                (
                    "momentumComponentResidualNorms"@,
                    json::numbers(reals::real_views(item.momentum_component_residual_norms@)),
                ),
            )
            .push(
                (
                    "momentumComponentInitialResiduals"@,
                    json::numbers(
                        reals::real_views(
                            item.momentum_component_initial_normalized_residual_norms@,
                        ),
                    ),
                ),
            )
            .push(
                (
                    "momentumComponentNormalizedResidualNorms"@,
                    json::numbers(
                        reals::real_views(item.momentum_component_normalized_residual_norms@),
                    ),
                ),
            )
            .push(("momentumDiagonalMin"@, json::number(item.momentum_diagonal_min@)))
            .push(("momentumDiagonalMax"@, json::number(item.momentum_diagonal_max@)))
            .push(("momentumH1Min"@, json::number(item.momentum_h1_min@)))
            .push(("momentumH1Max"@, json::number(item.momentum_h1_max@)))
            .push(
                (
                    "pressureCorrectionInitialResidual"@,
                    json::number(item.pressure_correction_initial_normalized_residual_norm@),
                ),
            )
            .push(
                (
                    "pressureCorrectionResidualNorm"@,
                    json::number(item.pressure_correction_residual_norm@),
                ),
            )
            .push(
                (
                    "pressureCorrectionNormalizedResidualNorm"@,
                    json::number(item.pressure_correction_normalized_residual_norm@),
                ),
            )
            .push(("residualControlConfigured"@, text::bool_text(item.residual_control.configured)))
            .push(("residualControlChecked"@, text::bool_text(item.residual_control.checked)))
            .push(("residualControlSatisfied"@, text::bool_text(item.residual_control.satisfied)))
            .push(("relativeVelocityChangeL2"@, json::number(item.relative_velocity_change_l2@)))
            .push(("relativePressureChangeL2"@, json::number(item.relative_pressure_change_l2@)))
            .push(("momentumUpdateScale"@, json::number(item.momentum_update_scale@)))
            .push(
                (
                    "pressureCorrectionUpdateScale"@,
                    json::number(item.pressure_correction_update_scale@),
                ),
            )
            .push(("adjustPhiGlobalFluxBefore"@, json::number(item.adjust_phi_global_flux_before@)))
            .push(("adjustPhiGlobalFluxAfter"@, json::number(item.adjust_phi_global_flux_after@)))
            .push(
                ("adjustPhiAdjustedFaces"@, text::decimal(item.adjust_phi_adjusted_faces as nat)),
            ),
    )
}

fn iteration_text(item: &LaminarSimpleIterationSummary) -> (out: String)
    ensures
        out@ == iteration_json(*item),
{
    let mut object = JsonObject::new();
    object.count("iteration", item.iteration);
    object.put("continuityBefore", continuity_text(6, &item.continuity_before));
    object.put("continuityAfter", continuity_text(6, &item.continuity_after));
    object.flag("pressureCorrectionAccepted", item.pressure_correction_accepted);
    object.count("momentumLinearIterations", item.momentum_linear_iterations);
    object.flag("momentumLinearConverged", item.momentum_linear_converged);
    object.put(
        "momentumComponentLinearConverged",
        json::flags_text(item.momentum_component_linear_converged.as_slice()),
    );
    object.count("pressureLinearIterations", item.pressure_linear_iterations);
    object.flag("pressureLinearConverged", item.pressure_linear_converged);
    object.count("pressureLinearSolves", item.pressure_linear_solves);
    object.count("pressureLinearNonConvergedSolves", item.pressure_linear_non_converged_solves);
    object.number("momentumInitialResidual", &item.momentum_initial_normalized_residual_norm);
    object.number("momentumResidualNorm", &item.momentum_residual_norm);
    object.number("momentumNormalizedResidualNorm", &item.momentum_normalized_residual_norm);
    object.put(
        "momentumComponentResidualNorms",
        json::numbers_text(item.momentum_component_residual_norms.as_slice()),
    );
    object.put(
        "momentumComponentInitialResiduals",
        json::numbers_text(item.momentum_component_initial_normalized_residual_norms.as_slice()),
    );
    object.put(
        "momentumComponentNormalizedResidualNorms",
        json::numbers_text(item.momentum_component_normalized_residual_norms.as_slice()),
    );
    object.number("momentumDiagonalMin", &item.momentum_diagonal_min);
    object.number("momentumDiagonalMax", &item.momentum_diagonal_max);
    object.number("momentumH1Min", &item.momentum_h1_min);
    object.number("momentumH1Max", &item.momentum_h1_max);
    object.number(
        "pressureCorrectionInitialResidual",
        &item.pressure_correction_initial_normalized_residual_norm,
    );
    object.number("pressureCorrectionResidualNorm", &item.pressure_correction_residual_norm);
    object.number(
        "pressureCorrectionNormalizedResidualNorm",
        &item.pressure_correction_normalized_residual_norm,
    );
    object.flag("residualControlConfigured", item.residual_control.configured);
    object.flag("residualControlChecked", item.residual_control.checked);
    object.flag("residualControlSatisfied", item.residual_control.satisfied);
    object.number("relativeVelocityChangeL2", &item.relative_velocity_change_l2);
    object.number("relativePressureChangeL2", &item.relative_pressure_change_l2);
    object.number("momentumUpdateScale", &item.momentum_update_scale);
    object.number("pressureCorrectionUpdateScale", &item.pressure_correction_update_scale);
    object.number("adjustPhiGlobalFluxBefore", &item.adjust_phi_global_flux_before);
    object.number("adjustPhiGlobalFluxAfter", &item.adjust_phi_global_flux_after);
    object.count("adjustPhiAdjustedFaces", item.adjust_phi_adjusted_faces);
    object.render(4)
}

/// The iterations.
pub open spec fn iteration_items(history: Seq<LaminarSimpleIterationSummary>) -> Seq<Seq<char>> {
    Seq::new(history.len(), |i: int| iteration_json(history[i]))
}

fn iteration_texts(history: &Vec<LaminarSimpleIterationSummary>) -> (out: Vec<String>)
    ensures
        text::texts(out@) == iteration_items(history@),
{
    let lines = layout::listed(history, iteration_text);
    assert(lines@ =~= iteration_items(history@));
    lines.into_parts()
}

/// A limit of the residuals of one equation.
pub open spec fn limit_json(
    tolerance: Option<Real>,
    residual: Real,
    satisfied: Option<bool>,
) -> Seq<char> {
    json::object(
        4,
        Seq::empty()
            .push(("tolerance"@, json::opt_number(reals::opt_real(tolerance))))
            .push(("initialResidual"@, json::number(residual@)))
            .push(("satisfied"@, json::opt_flag(satisfied))),
    )
}

fn limit_text(tolerance: &Option<Real>, residual: &Real, satisfied: Option<bool>) -> (out: String)
    ensures
        out@ == limit_json(*tolerance, *residual, satisfied),
{
    let mut object = JsonObject::new();
    object.opt_number("tolerance", tolerance);
    object.number("initialResidual", residual);
    object.opt_flag("satisfied", satisfied);
    object.render(4)
}

/// How the residuals compare with their limits.
pub open spec fn residual_control_json(
    options: LaminarSimpleOptions,
    report: LaminarSimpleReport,
) -> Seq<char> {
    json::object(
        2,
        Seq::empty()
            .push(("configured"@, text::bool_text(report.residual_control.configured)))
            .push(("checked"@, text::bool_text(report.residual_control.checked)))
            .push(("satisfied"@, text::bool_text(report.residual_control.satisfied)))
            .push(
            (
                "U"@,
                limit_json(
                    options.momentum_residual_control,
                    report.final_momentum_initial_normalized_residual_norm,
                    report.residual_control.momentum_satisfied,
                ),
            ),
        ).push(
            (
                "p"@,
                limit_json(
                    options.pressure_residual_control,
                    report.final_pressure_correction_initial_normalized_residual_norm,
                    report.residual_control.pressure_satisfied,
                ),
            ),
        ),
    )
}

fn residual_control_text(options: &LaminarSimpleOptions, report: &LaminarSimpleReport) -> (out:
    String)
    ensures
        out@ == residual_control_json(*options, *report),
{
    let mut object = JsonObject::new();
    object.flag("configured", report.residual_control.configured);
    object.flag("checked", report.residual_control.checked);
    object.flag("satisfied", report.residual_control.satisfied);
    object.put(
        "U",
        limit_text(
            &options.momentum_residual_control,
            &report.final_momentum_initial_normalized_residual_norm,
            report.residual_control.momentum_satisfied,
        ),
    );
    object.put(
        "p",
        limit_text(
            &options.pressure_residual_control,
            &report.final_pressure_correction_initial_normalized_residual_norm,
            report.residual_control.pressure_satisfied,
        ),
    );
    object.render(2)
}

/// The mesh of a run.
pub open spec fn report_mesh_json(report: LaminarSimpleReport) -> Seq<char> {
    json::object(
        2,
        Seq::empty()
            .push(("cells"@, text::decimal(report.cells as nat)))
            .push(("faces"@, text::decimal(report.faces as nat)))
            .push(("internalFaces"@, text::decimal(report.internal_faces as nat)))
            .push(("boundaryFaces"@, text::decimal(report.boundary_faces as nat))),
    )
}

fn report_mesh_text(report: &LaminarSimpleReport) -> (out: String)
    ensures
        out@ == report_mesh_json(*report),
{
    let mut object = JsonObject::new();
    object.count("cells", report.cells);
    object.count("faces", report.faces);
    object.count("internalFaces", report.internal_faces);
    object.count("boundaryFaces", report.boundary_faces);
    object.render(2)
}

/// The course of a run.
pub open spec fn solve_json(report: LaminarSimpleReport, seconds: Real) -> Seq<char> {
    json::object(
        2,
        Seq::empty()
            .push(("simpleIterations"@, text::decimal(report.simple_iterations as nat)))
            .push(("converged"@, text::bool_text(report.converged)))
            .push(("stopReason"@, json::string(simple::stop_reason_name(report.stop_reason))))
            .push(
                (
                    "momentumLinearIterations"@,
                    text::decimal(report.total_momentum_linear_iterations as nat),
                ),
            )
            .push(
                (
                    "pressureLinearIterations"@,
                    text::decimal(report.total_pressure_linear_iterations as nat),
                ),
            )
            .push(("wallClockSeconds"@, json::number(seconds@)))
            .push(
                (
                    "finalMomentumInitialResidual"@,
                    json::number(report.final_momentum_initial_normalized_residual_norm@),
                ),
            )
            .push(
                ("finalMomentumResidualNorm"@, json::number(report.final_momentum_residual_norm@)),
            )
            .push(
                (
                    "finalMomentumNormalizedResidualNorm"@,
                    json::number(report.final_momentum_normalized_residual_norm@),
                ),
            )
            .push(
                (
                    "finalPressureCorrectionInitialResidual"@,
                    json::number(
                        report.final_pressure_correction_initial_normalized_residual_norm@,
                    ),
                ),
            )
            .push(
                (
                    "finalPressureCorrectionResidualNorm"@,
                    json::number(report.final_pressure_correction_residual_norm@),
                ),
            )
            .push(
                (
                    "finalPressureCorrectionNormalizedResidualNorm"@,
                    json::number(report.final_pressure_correction_normalized_residual_norm@),
                ),
            )
            .push(
                (
                    "finalMomentumLinearConverged"@,
                    text::bool_text(report.linear_solve_summary.final_momentum_linear_converged),
                ),
            )
            .push(
                (
                    "finalPressureLinearConverged"@,
                    text::bool_text(report.linear_solve_summary.final_pressure_linear_converged),
                ),
            ),
    )
}

fn solve_text(report: &LaminarSimpleReport, seconds: &Real) -> (out: String)
    ensures
        out@ == solve_json(*report, *seconds),
{
    let mut object = JsonObject::new();
    object.count("simpleIterations", report.simple_iterations);
    object.flag("converged", report.converged);
    object.put("stopReason", json::string_text(report.stop_reason.to_string().as_str()));
    object.count("momentumLinearIterations", report.total_momentum_linear_iterations);
    object.count("pressureLinearIterations", report.total_pressure_linear_iterations);
    object.number("wallClockSeconds", seconds);
    object.number(
        "finalMomentumInitialResidual",
        &report.final_momentum_initial_normalized_residual_norm,
    );
    object.number("finalMomentumResidualNorm", &report.final_momentum_residual_norm);
    object.number(
        "finalMomentumNormalizedResidualNorm",
        &report.final_momentum_normalized_residual_norm,
    );
    object.number(
        "finalPressureCorrectionInitialResidual",
        &report.final_pressure_correction_initial_normalized_residual_norm,
    );
    object.number(
        "finalPressureCorrectionResidualNorm",
        &report.final_pressure_correction_residual_norm,
    );
    object.number(
        "finalPressureCorrectionNormalizedResidualNorm",
        &report.final_pressure_correction_normalized_residual_norm,
    );
    object.flag(
        "finalMomentumLinearConverged",
        report.linear_solve_summary.final_momentum_linear_converged,
    );
    object.flag(
        "finalPressureLinearConverged",
        report.linear_solve_summary.final_pressure_linear_converged,
    );
    object.render(2)
}

/// The balance at the start and at the end.
pub open spec fn continuity_pair_json(report: LaminarSimpleReport) -> Seq<char> {
    json::object(
        2,
        Seq::empty()
            .push(("initial"@, continuity_json(4, report.initial_continuity)))
            .push(("final"@, continuity_json(4, report.final_continuity))),
    )
}

fn continuity_pair_text(report: &LaminarSimpleReport) -> (out: String)
    ensures
        out@ == continuity_pair_json(*report),
{
    let mut object = JsonObject::new();
    object.put("initial", continuity_text(4, &report.initial_continuity));
    object.put("final", continuity_text(4, &report.final_continuity));
    object.render(2)
}

/// The members of the JSON report of a run up to its residuals.
pub open spec fn report_head(
    case_dir: Seq<char>,
    options: LaminarSimpleOptions,
    report: LaminarSimpleReport,
    seconds: Real,
) -> Seq<(Seq<char>, Seq<char>)> {
    Seq::empty()
        .push(("caseDir"@, json::string(case_dir)))
        .push(("solver"@, json::string("laminarSimple"@)))
        .push(("backend"@, json::string("cpu"@)))
        .push(("options"@, options_json(options)))
        .push(("mesh"@, report_mesh_json(report)))
        .push(("solve"@, solve_json(report, seconds)))
        .push(("residualControl"@, residual_control_json(options, report)))
}

fn head_object(
    case_dir: &str,
    options: &LaminarSimpleOptions,
    report: &LaminarSimpleReport,
    seconds: &Real,
) -> (object: JsonObject)
    ensures
        object@ == report_head(case_dir@, *options, *report, *seconds),
{
    let mut object = JsonObject::new();
    object.put("caseDir", json::string_text(case_dir));
    object.put("solver", json::string_text("laminarSimple"));
    object.put("backend", json::string_text("cpu"));
    object.put("options", options_text(options));
    object.put("mesh", report_mesh_text(report));
    object.put("solve", solve_text(report, seconds));
    object.put("residualControl", residual_control_text(options, report));
    object
}

/// `head` with the other members of the JSON report of a run.
pub open spec fn report_rest(
    head: Seq<(Seq<char>, Seq<char>)>,
    report: LaminarSimpleReport,
) -> Seq<(Seq<char>, Seq<char>)> {
    head
        .push(("linearSolves"@, linear_solves_json(report.linear_solve_summary)))
        .push(("continuity"@, continuity_pair_json(report)))
        .push(("operators"@, operators_json(report.operator_summary)))
        .push(("boundaries"@, boundaries_json(report.boundary_summary)))
        .push(("pressureAssembly"@, pressure_assembly_json(report.pressure_assembly)))
        .push(("fields"@, field_summary_json(report.fields)))
        .push(("history"@, json::listing(2, iteration_items(report.history@))))
}

fn put_rest(object: &mut JsonObject, report: &LaminarSimpleReport)
    ensures
        final(object)@ == report_rest(old(object)@, *report),
{
    object.put("linearSolves", linear_solves_text(&report.linear_solve_summary));
    object.put("continuity", continuity_pair_text(report));
    object.put("operators", operators_text(&report.operator_summary));
    object.put("boundaries", boundaries_text(&report.boundary_summary));
    object.put("pressureAssembly", pressure_assembly_text(&report.pressure_assembly));
    object.put("fields", field_summary_text(&report.fields));
    object.put("history", json::listing_text(2, &iteration_texts(&report.history)));
}

/// The members of the JSON report of a run.
pub open spec fn report_members(
    case_dir: Seq<char>,
    options: LaminarSimpleOptions,
    report: LaminarSimpleReport,
    seconds: Real,
) -> Seq<(Seq<char>, Seq<char>)> {
    report_rest(report_head(case_dir, options, report, seconds), report)
}

/// The JSON report of a run.
pub open spec fn report_json(
    case_dir: Seq<char>,
    options: LaminarSimpleOptions,
    report: LaminarSimpleReport,
    seconds: Real,
) -> Seq<char> {
    json::object(0, report_members(case_dir, options, report, seconds)) + "\n"@
}

/// The JSON report of a run that took `seconds`.
pub fn laminar_simple_report_json(
    case_dir: &str,
    options: &LaminarSimpleOptions,
    report: &LaminarSimpleReport,
    seconds: &Real,
) -> (out: String)
    ensures
        out@ == report_json(case_dir@, *options, *report, *seconds),
{
    let mut object = head_object(case_dir, options, report, seconds);
    put_rest(&mut object, report);
    let mut out = object.render(0);
    out.append("\n");
    out
}

} // verus!
