//! That the JSON reports of runs and benchmarks belong to the grammar of JSON.

use crate::benchmark_args::{PipeBenchmarkArgs, PlaneChannelBenchmarkArgs};
use crate::benchmark_report;
use crate::flow::FlowBoundarySummary;
use crate::json;
use crate::json_grammar;
use crate::poiseuille::{LaminarPipeBenchmarkSummary, LaminarPlaneChannelBenchmarkSummary};
use crate::reals;
use crate::reals::Real;
use crate::schemes::LaminarSimpleSchemes;
use crate::simple::{
    ContinuitySummary, FaceFluxDiagnosticSummary, FlowOperatorSummary, LaminarSimpleFieldSummary,
    LaminarSimpleIterationSummary, LaminarSimpleOptions, LaminarSimpleReport, LinearSolveSummary,
    MatrixDiagnosticSummary, PressureAssemblyDiagnostics, ScalarDiagnosticSummary,
    VectorDiagnosticSummary,
};
use crate::simple_json;
use vstd::prelude::*;

verus! {

proof fn lemma_schemes(chosen: LaminarSimpleSchemes)
    ensures
        json_grammar::is_value(simple_json::schemes_json(chosen)),
{
    broadcast use json_grammar::group_values;
}

/// Whether the numbers of the settings of a run are shown as JSON demands.
pub open spec fn plain_options(options: LaminarSimpleOptions) -> bool {
    &&& json_grammar::is_plain(options.density@)
    &&& json_grammar::is_plain(options.dynamic_viscosity@)
    &&& json_grammar::opt_plain(reals::opt_real(options.momentum_residual_control))
    &&& json_grammar::opt_plain(reals::opt_real(options.pressure_residual_control))
    &&& json_grammar::is_plain(options.pressure_reference_value@)
    &&& json_grammar::is_plain(options.linear_tolerance@)
    &&& json_grammar::is_plain(options.momentum_linear_tolerance@)
    &&& json_grammar::is_plain(options.pressure_linear_tolerance@)
    &&& json_grammar::is_plain(options.velocity_relaxation@)
    &&& json_grammar::is_plain(options.pressure_relaxation@)
}

proof fn lemma_options(options: LaminarSimpleOptions)
    requires
        plain_options(options),
    ensures
        json_grammar::is_value(simple_json::options_json(options)),
{
    broadcast use json_grammar::group_values;

    lemma_schemes(options.schemes);
}

/// Whether the numbers of a balance of fluxes are shown as JSON demands.
pub open spec fn plain_continuity(summary: ContinuitySummary) -> bool {
    &&& json_grammar::is_plain(summary.l2_norm@)
    &&& json_grammar::is_plain(summary.max_abs@)
    &&& json_grammar::is_plain(summary.sum_abs@)
    &&& json_grammar::is_plain(summary.global_sum@)
}

proof fn lemma_continuity(indent: nat, summary: ContinuitySummary)
    requires
        plain_continuity(summary),
    ensures
        json_grammar::is_value(simple_json::continuity_json(indent, summary)),
{
    broadcast use json_grammar::group_values;
}

/// Whether the numbers of the extent of a scalar field are shown as JSON demands.
pub open spec fn plain_scalar(summary: ScalarDiagnosticSummary) -> bool {
    &&& json_grammar::is_plain(summary.min@)
    &&& json_grammar::is_plain(summary.max@)
    &&& json_grammar::is_plain(summary.l2_norm@)
    &&& json_grammar::is_plain(summary.sum@)
    &&& json_grammar::is_plain(summary.sum_abs@)
}

proof fn lemma_scalar(indent: nat, summary: ScalarDiagnosticSummary)
    requires
        plain_scalar(summary),
    ensures
        json_grammar::is_value(simple_json::scalar_json(indent, summary)),
{
    broadcast use json_grammar::group_values;
}

/// Whether the numbers of the extent of a vector field are shown as JSON demands.
pub open spec fn plain_vector(summary: VectorDiagnosticSummary) -> bool {
    &&& json_grammar::is_plain(summary.min_magnitude@)
    &&& json_grammar::is_plain(summary.max_magnitude@)
    &&& json_grammar::is_plain(summary.l2_norm@)
    &&& json_grammar::is_plain(summary.x_min@)
    &&& json_grammar::is_plain(summary.x_max@)
    &&& json_grammar::is_plain(summary.y_min@)
    &&& json_grammar::is_plain(summary.y_max@)
    &&& json_grammar::is_plain(summary.z_min@)
    &&& json_grammar::is_plain(summary.z_max@)
}

proof fn lemma_vector(indent: nat, summary: VectorDiagnosticSummary)
    requires
        plain_vector(summary),
    ensures
        json_grammar::is_value(simple_json::vector_json(indent, summary)),
{
    broadcast use json_grammar::group_values;
}

/// Whether the numbers of the extent of a flux are shown as JSON demands.
pub open spec fn plain_face_flux(summary: FaceFluxDiagnosticSummary) -> bool {
    &&& json_grammar::is_plain(summary.min@)
    &&& json_grammar::is_plain(summary.max@)
    &&& json_grammar::is_plain(summary.l2_norm@)
    &&& json_grammar::is_plain(summary.sum@)
    &&& json_grammar::is_plain(summary.sum_abs@)
    &&& json_grammar::is_plain(summary.internal_sum_abs@)
    &&& json_grammar::is_plain(summary.boundary_sum@)
    &&& json_grammar::is_plain(summary.boundary_sum_abs@)
}

proof fn lemma_face_flux(indent: nat, summary: FaceFluxDiagnosticSummary)
    requires
        plain_face_flux(summary),
    ensures
        json_grammar::is_value(simple_json::face_flux_json(indent, summary)),
{
    broadcast use json_grammar::group_values;
}

/// Whether the numbers of the extent of a matrix are shown as JSON demands.
pub open spec fn plain_matrix(summary: MatrixDiagnosticSummary) -> bool {
    &&& json_grammar::is_plain(summary.diagonal_min@)
    &&& json_grammar::is_plain(summary.diagonal_max@)
    &&& json_grammar::is_plain(summary.diagonal_sum_abs@)
    &&& json_grammar::is_plain(summary.off_diagonal_sum_abs@)
    &&& json_grammar::is_plain(summary.max_row_sum_abs@)
    &&& json_grammar::is_plain(summary.max_row_off_diagonal_sum_abs@)
}

proof fn lemma_matrix(indent: nat, summary: MatrixDiagnosticSummary)
    requires
        plain_matrix(summary),
    ensures
        json_grammar::is_value(simple_json::matrix_json(indent, summary)),
{
    broadcast use json_grammar::group_values;
}

/// Whether the numbers of the size of the operators are shown as JSON demands.
pub open spec fn plain_operators(summary: FlowOperatorSummary) -> bool {
    &&& json_grammar::is_plain(summary.phi_min@)
    &&& json_grammar::is_plain(summary.phi_max@)
    &&& json_grammar::is_plain(summary.phi_sum_abs@)
    &&& json_grammar::is_plain(summary.grad_p_l2_norm@)
    &&& json_grammar::is_plain(summary.hby_a_l2_norm@)
    &&& json_grammar::is_plain(summary.div_phi_u_l2_norm@)
}

proof fn lemma_operators(summary: FlowOperatorSummary)
    requires
        plain_operators(summary),
    ensures
        json_grammar::is_value(simple_json::operators_json(summary)),
{
    broadcast use json_grammar::group_values;
}

proof fn lemma_boundaries(summary: FlowBoundarySummary)
    ensures
        json_grammar::is_value(simple_json::boundaries_json(summary)),
{
    broadcast use json_grammar::group_values;
}

/// Whether the numbers of the linear systems that were solved are shown as JSON
/// demands.
pub open spec fn plain_linear_solves(summary: LinearSolveSummary) -> bool {
    &&& json_grammar::is_plain(summary.average_momentum_linear_iterations_per_simple@)
    &&& json_grammar::is_plain(summary.average_pressure_linear_iterations_per_simple@)
}

proof fn lemma_linear_solves(summary: LinearSolveSummary)
    requires
        plain_linear_solves(summary),
    ensures
        json_grammar::is_value(simple_json::linear_solves_json(summary)),
{
    broadcast use json_grammar::group_values;
}

/// Whether the numbers of a pressure equation are shown as JSON demands.
pub open spec fn plain_assembly(found: PressureAssemblyDiagnostics) -> bool {
    &&& plain_scalar(found.r_au)
    &&& plain_scalar(found.r_at_u)
    &&& plain_vector(found.hby_a)
    &&& plain_face_flux(found.phi_hby_a_before_adjust)
    &&& plain_face_flux(found.phi_hby_a_after_adjust)
    &&& plain_scalar(found.pressure_source)
    &&& plain_face_flux(found.pressure_equation_flux)
    &&& plain_matrix(found.pressure_matrix)
    &&& plain_face_flux(found.pressure_flux)
    &&& plain_face_flux(found.corrected_phi)
}

proof fn lemma_assembly(found: PressureAssemblyDiagnostics)
    requires
        plain_assembly(found),
    ensures
        json_grammar::is_value(simple_json::assembly_json(found)),
{
    broadcast use json_grammar::group_values;

    lemma_scalar(4, found.r_au);
    lemma_scalar(4, found.r_at_u);
    lemma_vector(4, found.hby_a);
    lemma_face_flux(4, found.phi_hby_a_before_adjust);
    lemma_face_flux(4, found.phi_hby_a_after_adjust);
    lemma_scalar(4, found.pressure_source);
    lemma_face_flux(4, found.pressure_equation_flux);
    lemma_matrix(4, found.pressure_matrix);
    lemma_face_flux(4, found.pressure_flux);
    lemma_face_flux(4, found.corrected_phi);
}

/// Whether the numbers of a pressure equation, if there is one, are shown as JSON
/// demands.
pub open spec fn plain_pressure_assembly(found: Option<PressureAssemblyDiagnostics>) -> bool {
    match found {
        Some(diagnostics) => plain_assembly(diagnostics),
        None => true,
    }
}

proof fn lemma_pressure_assembly(found: Option<PressureAssemblyDiagnostics>)
    requires
        plain_pressure_assembly(found),
    ensures
        json_grammar::is_value(simple_json::pressure_assembly_json(found)),
{
    json_grammar::null_is_value();
    if let Some(diagnostics) = found {
        lemma_assembly(diagnostics);
    }
}

/// Whether the numbers of the extent of the fields are shown as JSON demands.
pub open spec fn plain_field_summary(fields: LaminarSimpleFieldSummary) -> bool {
    &&& plain_vector(fields.velocity)
    &&& plain_scalar(fields.pressure)
}

proof fn lemma_field_summary(fields: LaminarSimpleFieldSummary)
    requires
        plain_field_summary(fields),
    ensures
        json_grammar::is_value(simple_json::field_summary_json(fields)),
{
    broadcast use json_grammar::group_values;

    lemma_vector(4, fields.velocity);
    lemma_scalar(4, fields.pressure);
}

/// Whether the numbers of an iteration are shown as JSON demands.
pub open spec fn plain_iteration(item: LaminarSimpleIterationSummary) -> bool {
    &&& plain_continuity(item.continuity_before)
    &&& plain_continuity(item.continuity_after)
    &&& json_grammar::is_plain(item.momentum_initial_normalized_residual_norm@)
    &&& json_grammar::is_plain(item.momentum_residual_norm@)
    &&& json_grammar::is_plain(item.momentum_normalized_residual_norm@)
    &&& json_grammar::all_plain(reals::real_views(item.momentum_component_residual_norms@))
    &&& json_grammar::all_plain(
        reals::real_views(item.momentum_component_initial_normalized_residual_norms@),
    )
    &&& json_grammar::all_plain(
        reals::real_views(item.momentum_component_normalized_residual_norms@),
    )
    &&& json_grammar::is_plain(item.momentum_diagonal_min@)
    &&& json_grammar::is_plain(item.momentum_diagonal_max@)
    &&& json_grammar::is_plain(item.momentum_h1_min@)
    &&& json_grammar::is_plain(item.momentum_h1_max@)
    &&& json_grammar::is_plain(item.pressure_correction_initial_normalized_residual_norm@)
    &&& json_grammar::is_plain(item.pressure_correction_residual_norm@)
    &&& json_grammar::is_plain(item.pressure_correction_normalized_residual_norm@)
    &&& json_grammar::is_plain(item.relative_velocity_change_l2@)
    &&& json_grammar::is_plain(item.relative_pressure_change_l2@)
    &&& json_grammar::is_plain(item.momentum_update_scale@)
    &&& json_grammar::is_plain(item.pressure_correction_update_scale@)
    &&& json_grammar::is_plain(item.adjust_phi_global_flux_before@)
    &&& json_grammar::is_plain(item.adjust_phi_global_flux_after@)
}

proof fn lemma_iteration(item: LaminarSimpleIterationSummary)
    requires
        plain_iteration(item),
    ensures
        json_grammar::is_value(simple_json::iteration_json(item)),
{
    broadcast use json_grammar::group_values;

    lemma_continuity(6, item.continuity_before);
    lemma_continuity(6, item.continuity_after);
}

/// Whether all of them show their numbers as JSON demands.
pub open spec fn plain_iteration_items(history: Seq<LaminarSimpleIterationSummary>) -> bool {
    forall|i: int| 0 <= i < history.len() ==> plain_iteration(#[trigger] history[i])
}

proof fn lemma_iteration_items(history: Seq<LaminarSimpleIterationSummary>)
    requires
        plain_iteration_items(history),
    ensures
        forall|i: int|
            0 <= i < history.len() ==> json_grammar::is_value(
                #[trigger] simple_json::iteration_items(history)[i],
            ),
{
    assert forall|i: int| 0 <= i < history.len() implies json_grammar::is_value(
        #[trigger] simple_json::iteration_items(history)[i],
    ) by {
        assert(plain_iteration(history[i]));
        lemma_iteration(history[i]);
    }
}

/// Whether the numbers of a limit of the residuals of one equation are shown as
/// JSON demands.
pub open spec fn plain_limit(tolerance: Option<Real>, residual: Real) -> bool {
    &&& json_grammar::opt_plain(reals::opt_real(tolerance))
    &&& json_grammar::is_plain(residual@)
}

proof fn lemma_limit(tolerance: Option<Real>, residual: Real, satisfied: Option<bool>)
    requires
        plain_limit(tolerance, residual),
    ensures
        json_grammar::is_value(simple_json::limit_json(tolerance, residual, satisfied)),
{
    broadcast use json_grammar::group_values;
}

/// Whether the numbers of the residuals and their limits are shown as JSON
/// demands.
pub open spec fn plain_residual_control(
    options: LaminarSimpleOptions,
    report: LaminarSimpleReport,
) -> bool {
    &&& plain_limit(
        options.momentum_residual_control,
        report.final_momentum_initial_normalized_residual_norm,
    )
    &&& plain_limit(
        options.pressure_residual_control,
        report.final_pressure_correction_initial_normalized_residual_norm,
    )
}

proof fn lemma_residual_control(options: LaminarSimpleOptions, report: LaminarSimpleReport)
    requires
        plain_residual_control(options, report),
    ensures
        json_grammar::is_value(simple_json::residual_control_json(options, report)),
{
    broadcast use json_grammar::group_values;

    lemma_limit(
        options.momentum_residual_control,
        report.final_momentum_initial_normalized_residual_norm,
        report.residual_control.momentum_satisfied,
    );
    lemma_limit(
        options.pressure_residual_control,
        report.final_pressure_correction_initial_normalized_residual_norm,
        report.residual_control.pressure_satisfied,
    );
}

proof fn lemma_report_mesh(report: LaminarSimpleReport)
    ensures
        json_grammar::is_value(simple_json::report_mesh_json(report)),
{
    broadcast use json_grammar::group_values;
}

/// Whether the numbers of the course of a run are shown as JSON demands.
pub open spec fn plain_solve(report: LaminarSimpleReport, seconds: Real) -> bool {
    &&& json_grammar::is_plain(seconds@)
    &&& json_grammar::is_plain(report.final_momentum_initial_normalized_residual_norm@)
    &&& json_grammar::is_plain(report.final_momentum_residual_norm@)
    &&& json_grammar::is_plain(report.final_momentum_normalized_residual_norm@)
    &&& json_grammar::is_plain(report.final_pressure_correction_initial_normalized_residual_norm@)
    &&& json_grammar::is_plain(report.final_pressure_correction_residual_norm@)
    &&& json_grammar::is_plain(report.final_pressure_correction_normalized_residual_norm@)
}

proof fn lemma_solve(report: LaminarSimpleReport, seconds: Real)
    requires
        plain_solve(report, seconds),
    ensures
        json_grammar::is_value(simple_json::solve_json(report, seconds)),
{
    broadcast use json_grammar::group_values;
}

/// Whether the numbers of the balance at the start and at the end are shown as
/// JSON demands.
pub open spec fn plain_continuity_pair(report: LaminarSimpleReport) -> bool {
    &&& plain_continuity(report.initial_continuity)
    &&& plain_continuity(report.final_continuity)
}

proof fn lemma_continuity_pair(report: LaminarSimpleReport)
    requires
        plain_continuity_pair(report),
    ensures
        json_grammar::is_value(simple_json::continuity_pair_json(report)),
{
    broadcast use json_grammar::group_values;

    lemma_continuity(4, report.initial_continuity);
    lemma_continuity(4, report.final_continuity);
}

/// Whether the numbers of the JSON report of a run are shown as JSON demands.
pub open spec fn plain_report(
    options: LaminarSimpleOptions,
    report: LaminarSimpleReport,
    seconds: Real,
) -> bool {
    &&& plain_options(options)
    &&& plain_solve(report, seconds)
    &&& plain_residual_control(options, report)
    &&& plain_linear_solves(report.linear_solve_summary)
    &&& plain_continuity_pair(report)
    &&& plain_operators(report.operator_summary)
    &&& plain_pressure_assembly(report.pressure_assembly)
    &&& plain_field_summary(report.fields)
    &&& plain_iteration_items(report.history@)
}

/// The JSON report of a run is a JSON text, if its numbers are shown as JSON
/// demands.
pub proof fn report_is_json(
    case_dir: Seq<char>,
    options: LaminarSimpleOptions,
    report: LaminarSimpleReport,
    seconds: Real,
)
    requires
        plain_report(options, report, seconds),
    ensures
        json_grammar::is_json(simple_json::report_json(case_dir, options, report, seconds)),
{
    broadcast use {
        json_grammar::string_is_value,
        json_grammar::none_has_values,
        json_grammar::one_more_has_values,
    };

    lemma_options(options);
    lemma_report_mesh(report);
    lemma_solve(report, seconds);
    lemma_residual_control(options, report);
    lemma_linear_solves(report.linear_solve_summary);
    lemma_continuity_pair(report);
    lemma_operators(report.operator_summary);
    lemma_boundaries(report.boundary_summary);
    lemma_pressure_assembly(report.pressure_assembly);
    lemma_field_summary(report.fields);
    lemma_iteration_items(report.history@);
    json_grammar::listing_is_value(2, simple_json::iteration_items(report.history@));
    let members = simple_json::report_members(case_dir, options, report, seconds);
    assert(json_grammar::all_values(members));
    json_grammar::object_is_value(0, members);
    json_grammar::line_is_json(json::object(0, members));
}

/// Whether the numbers of the pipe of the JSON report are shown as JSON demands.
pub open spec fn plain_pipe_inputs(args: PipeBenchmarkArgs) -> bool {
    &&& json_grammar::is_plain(args.options.pressure_drop@)
    &&& json_grammar::is_plain(args.options.dynamic_viscosity@)
    &&& json_grammar::is_plain(args.options.length@)
    &&& json_grammar::is_plain(args.options.diameter@)
}

proof fn lemma_pipe_inputs(args: PipeBenchmarkArgs)
    requires
        plain_pipe_inputs(args),
    ensures
        json_grammar::is_value(benchmark_report::pipe_inputs_json(args)),
{
    broadcast use json_grammar::group_values;
}

/// Whether the numbers of the comparison of the JSON report on a pipe are shown
/// as JSON demands.
pub open spec fn plain_pipe_summary(summary: LaminarPipeBenchmarkSummary) -> bool {
    &&& json_grammar::is_plain(summary.min_velocity@)
    &&& json_grammar::is_plain(summary.max_velocity@)
    &&& json_grammar::is_plain(summary.mean_velocity@)
    &&& json_grammar::is_plain(summary.flow_rate@)
    &&& json_grammar::is_plain(summary.analytic_mean_velocity@)
    &&& json_grammar::is_plain(summary.analytic_flow_rate@)
    &&& json_grammar::is_plain(summary.pressure_drop_from_mean@)
    &&& json_grammar::is_plain(summary.pressure_drop_from_owner_cells@)
    &&& json_grammar::is_plain(summary.relative_mean_velocity_error@)
    &&& json_grammar::is_plain(summary.relative_pressure_drop_from_mean_error@)
    &&& json_grammar::is_plain(summary.relative_pressure_drop_from_owner_cells_error@)
}

proof fn lemma_pipe_summary(summary: LaminarPipeBenchmarkSummary)
    requires
        plain_pipe_summary(summary),
    ensures
        json_grammar::is_value(benchmark_report::pipe_summary_json(summary)),
{
    broadcast use json_grammar::group_values;
}

/// Whether the numbers of the channel of the JSON report are shown as JSON
/// demands.
pub open spec fn plain_channel_inputs(args: PlaneChannelBenchmarkArgs) -> bool {
    &&& json_grammar::is_plain(args.options.pressure_drop@)
    &&& json_grammar::is_plain(args.options.dynamic_viscosity@)
    &&& json_grammar::is_plain(args.options.length@)
    &&& json_grammar::is_plain(args.options.gap@)
    &&& json_grammar::is_plain(args.options.depth@)
    &&& json_grammar::is_plain(args.pressure_scale@)
}

proof fn lemma_channel_inputs(args: PlaneChannelBenchmarkArgs)
    requires
        plain_channel_inputs(args),
    ensures
        json_grammar::is_value(benchmark_report::channel_inputs_json(args)),
{
    broadcast use json_grammar::group_values;
}

/// Whether the numbers of the comparison of the JSON report on a channel are
/// shown as JSON demands.
pub open spec fn plain_channel_summary(summary: LaminarPlaneChannelBenchmarkSummary) -> bool {
    &&& json_grammar::is_plain(summary.min_velocity@)
    &&& json_grammar::is_plain(summary.max_velocity@)
    &&& json_grammar::is_plain(summary.mean_velocity@)
    &&& json_grammar::is_plain(summary.flow_rate@)
    &&& json_grammar::is_plain(summary.flow_rate_per_unit_depth@)
    &&& json_grammar::is_plain(summary.analytic_mean_velocity@)
    &&& json_grammar::is_plain(summary.analytic_flow_rate@)
    &&& json_grammar::is_plain(summary.analytic_flow_rate_per_unit_depth@)
    &&& json_grammar::is_plain(summary.pressure_drop_from_mean@)
    &&& json_grammar::is_plain(summary.pressure_drop_from_owner_cells@)
    &&& json_grammar::is_plain(summary.relative_mean_velocity_error@)
    &&& json_grammar::is_plain(summary.relative_pressure_drop_from_mean_error@)
    &&& json_grammar::is_plain(summary.relative_pressure_drop_from_owner_cells_error@)
}

proof fn lemma_channel_summary(summary: LaminarPlaneChannelBenchmarkSummary)
    requires
        plain_channel_summary(summary),
    ensures
        json_grammar::is_value(benchmark_report::channel_summary_json(summary)),
{
    broadcast use json_grammar::group_values;
}

/// Whether the numbers of the JSON report on a pipe are shown as JSON demands.
pub open spec fn plain_pipe(args: PipeBenchmarkArgs, summary: LaminarPipeBenchmarkSummary) -> bool {
    &&& plain_pipe_inputs(args)
    &&& plain_pipe_summary(summary)
}

/// The JSON report on a pipe is a JSON text, if its numbers are shown as JSON
/// demands.
pub proof fn pipe_report_is_json(args: PipeBenchmarkArgs, summary: LaminarPipeBenchmarkSummary)
    requires
        plain_pipe(args, summary),
    ensures
        json_grammar::is_json(benchmark_report::pipe_json(args, summary)),
{
    broadcast use json_grammar::group_values;

    lemma_pipe_inputs(args);
    lemma_pipe_summary(summary);
}

/// Whether the numbers of the JSON report on a channel are shown as JSON demands.
pub open spec fn plain_channel(
    args: PlaneChannelBenchmarkArgs,
    summary: LaminarPlaneChannelBenchmarkSummary,
) -> bool {
    &&& plain_channel_inputs(args)
    &&& plain_channel_summary(summary)
}

/// The JSON report on a channel is a JSON text, if its numbers are shown as JSON
/// demands.
pub proof fn channel_report_is_json(
    args: PlaneChannelBenchmarkArgs,
    summary: LaminarPlaneChannelBenchmarkSummary,
)
    requires
        plain_channel(args, summary),
    ensures
        json_grammar::is_json(benchmark_report::channel_json(args, summary)),
{
    broadcast use json_grammar::group_values;

    lemma_channel_inputs(args);
    lemma_channel_summary(summary);
}

} // verus!
