//! The Markdown and CSV reports of a laminar SIMPLE run, and what is shown of it.

use crate::flow;
use crate::layout;
use crate::layout::TextList;
use crate::reals;
use crate::reals::Real;
use crate::schemes;
use crate::simple;
use crate::simple::{
    LaminarSimpleIterationSummary, LaminarSimpleOptions, LaminarSimpleReport,
    LaminarSimpleStopReason, PressureAssemblyDiagnostics,
};
use crate::text;
use vstd::prelude::*;

verus! {

/// The settings of the Markdown report.
pub open spec fn input_lines(case_dir: Seq<char>, options: LaminarSimpleOptions) -> Seq<Seq<char>> {
    Seq::empty()
        .push("# Laminar SIMPLE Report"@)
        .push(Seq::empty())
        .push("Case: `"@ + case_dir + "`"@)
        .push(Seq::empty())
        .push("## Inputs"@)
        .push(Seq::empty())
        .push("| Quantity | Value |"@)
        .push("| --- | ---: |"@)
        .push(layout::named_row("Density [kg/m3]"@, options.density.scientific@))
        .push(layout::named_row("Dynamic viscosity [Pa s]"@, options.dynamic_viscosity.scientific@))
        .push(
            layout::named_row(
                "Momentum linear solver"@,
                flow::solver_name(options.momentum_linear_solver),
            ),
        )
        .push(
            layout::named_row(
                "Momentum preconditioner"@,
                flow::preconditioner_name(options.momentum_preconditioner),
            ),
        )
        .push(
            layout::named_row(
                "Momentum linear tolerance"@,
                options.momentum_linear_tolerance.scientific@,
            ),
        )
        .push(
            layout::named_row(
                "Momentum max linear iterations"@,
                text::decimal(options.momentum_max_linear_iterations as nat),
            ),
        )
        .push(
            layout::named_row(
                "Pressure linear solver"@,
                flow::solver_name(options.pressure_linear_solver),
            ),
        )
        .push(
            layout::named_row(
                "Pressure preconditioner"@,
                flow::preconditioner_name(options.pressure_preconditioner),
            ),
        )
        .push(
            layout::named_row(
                "Pressure linear tolerance"@,
                options.pressure_linear_tolerance.scientific@,
            ),
        )
        .push(
            layout::named_row(
                "Pressure max linear iterations"@,
                text::decimal(options.pressure_max_linear_iterations as nat),
            ),
        )
        .push(
            layout::named_row(
                "Min SIMPLE iterations"@,
                text::decimal(options.min_simple_iterations as nat),
            ),
        )
        .push(
            layout::named_row(
                "U residualControl"@,
                layout::opt_scientific(reals::opt_real(options.momentum_residual_control)),
            ),
        )
        .push(
            layout::named_row(
                "p residualControl"@,
                layout::opt_scientific(reals::opt_real(options.pressure_residual_control)),
            ),
        )
        .push(
            layout::named_row(
                "pRefCell"@,
                layout::count_or(options.pressure_reference_cell, "n/a"@),
            ),
        )
        .push(layout::named_row("pRefValue [Pa]"@, options.pressure_reference_value.scientific@))
        .push(
            layout::named_row(
                "Non-orthogonal correctors"@,
                text::decimal(options.non_orthogonal_correctors as nat),
            ),
        )
        .push(layout::named_row("grad(p) scheme"@, schemes::gradient_name(options.schemes.grad_p)))
        .push(layout::named_row("grad(U) scheme"@, schemes::gradient_name(options.schemes.grad_u)))
        .push(
            layout::named_row(
                "div(phi,U) scheme"@,
                schemes::convection_name(options.schemes.div_phi_u),
            ),
        )
        .push(
            layout::named_row(
                "laplacian scheme"@,
                schemes::laplacian_name(options.schemes.laplacian),
            ),
        )
        .push(
            layout::named_row(
                "interpolation scheme"@,
                schemes::interpolation_name(options.schemes.interpolation),
            ),
        )
        .push(layout::named_row("snGrad scheme"@, schemes::sn_grad_name(options.schemes.sn_grad)))
        .push(layout::named_row("Consistent SIMPLE"@, layout::yes_no(options.simple_consistent)))
        .push(Seq::empty())
}

fn input(case_dir: &str, options: &LaminarSimpleOptions) -> (lines: TextList)
    ensures
        lines@ == input_lines(case_dir@, *options),
{
    let mut lines = TextList::new();
    lines.add("# Laminar SIMPLE Report");
    lines.blank();
    lines.push(case_line(case_dir));
    lines.blank();
    lines.add("## Inputs");
    lines.blank();
    lines.add("| Quantity | Value |");
    lines.add("| --- | ---: |");
    lines.named("Density [kg/m3]", options.density.scientific.as_str());
    lines.named("Dynamic viscosity [Pa s]", options.dynamic_viscosity.scientific.as_str());
    lines.named("Momentum linear solver", options.momentum_linear_solver.to_string().as_str());
    lines.named("Momentum preconditioner", options.momentum_preconditioner.to_string().as_str());
    lines.named("Momentum linear tolerance", options.momentum_linear_tolerance.scientific.as_str());
    lines.named(
        "Momentum max linear iterations",
        text::number_text(options.momentum_max_linear_iterations).as_str(),
    );
    lines.named("Pressure linear solver", options.pressure_linear_solver.to_string().as_str());
    lines.named("Pressure preconditioner", options.pressure_preconditioner.to_string().as_str());
    lines.named("Pressure linear tolerance", options.pressure_linear_tolerance.scientific.as_str());
    lines.named(
        "Pressure max linear iterations",
        text::number_text(options.pressure_max_linear_iterations).as_str(),
    );
    lines.named("Min SIMPLE iterations", text::number_text(options.min_simple_iterations).as_str());
    lines.named(
        "U residualControl",
        layout::opt_scientific_text(&options.momentum_residual_control).as_str(),
    );
    lines.named(
        "p residualControl",
        layout::opt_scientific_text(&options.pressure_residual_control).as_str(),
    );
    lines.named("pRefCell", layout::count_or_text(options.pressure_reference_cell, "n/a").as_str());
    lines.named("pRefValue [Pa]", options.pressure_reference_value.scientific.as_str());
    lines.named(
        "Non-orthogonal correctors",
        text::number_text(options.non_orthogonal_correctors).as_str(),
    );
    lines.named("grad(p) scheme", options.schemes.grad_p.to_string().as_str());
    lines.named("grad(U) scheme", options.schemes.grad_u.to_string().as_str());
    lines.named("div(phi,U) scheme", options.schemes.div_phi_u.to_string().as_str());
    lines.named("laplacian scheme", options.schemes.laplacian.to_string().as_str());
    lines.named("interpolation scheme", options.schemes.interpolation.to_string().as_str());
    lines.named("snGrad scheme", options.schemes.sn_grad.to_string().as_str());
    lines.named("Consistent SIMPLE", layout::yes_no_text(options.simple_consistent));
    lines.blank();
    lines
}

/// The results of the Markdown report.
pub open spec fn result_lines(report: LaminarSimpleReport, seconds: Real) -> Seq<Seq<char>> {
    Seq::empty()
        .push("## Result"@)
        .push(Seq::empty())
        .push("| Quantity | Value |"@)
        .push("| --- | ---: |"@)
        .push(
            layout::named_row("SIMPLE iterations"@, text::decimal(report.simple_iterations as nat)),
        )
        .push(layout::named_row("Converged"@, layout::yes_no(report.converged)))
        .push(layout::named_row("Stop reason"@, simple::stop_reason_name(report.stop_reason)))
        .push(
            layout::named_row(
                "residualControl state"@,
                simple::residual_control_name(report.residual_control),
            ),
        )
        .push(
            layout::named_row(
                "U residualControl satisfied"@,
                layout::opt_yes_no(report.residual_control.momentum_satisfied),
            ),
        )
        .push(
            layout::named_row(
                "p residualControl satisfied"@,
                layout::opt_yes_no(report.residual_control.pressure_satisfied),
            ),
        )
        .push(
            layout::named_row(
                "Final momentum linear converged"@,
                layout::yes_no(report.linear_solve_summary.final_momentum_linear_converged),
            ),
        )
        .push(
            layout::named_row(
                "Final pressure linear converged"@,
                layout::yes_no(report.linear_solve_summary.final_pressure_linear_converged),
            ),
        )
        .push(
            layout::named_row("Final continuity L2"@, report.final_continuity.l2_norm.scientific@),
        )
        .push(
            layout::named_row(
                "Final SIMPLE iteration U initial residual"@,
                report.final_momentum_initial_normalized_residual_norm.scientific@,
            ),
        )
        .push(
            layout::named_row(
                "Final SIMPLE iteration U final residual"@,
                report.final_momentum_normalized_residual_norm.scientific@,
            ),
        )
        .push(
            layout::named_row(
                "Momentum raw L2 residual norm"@,
                report.final_momentum_residual_norm.scientific@,
            ),
        )
        .push(
            layout::named_row(
                "Final SIMPLE iteration p initial residual"@,
                report.final_pressure_correction_initial_normalized_residual_norm.scientific@,
            ),
        )
        .push(
            layout::named_row(
                "Final SIMPLE iteration p final residual"@,
                report.final_pressure_correction_normalized_residual_norm.scientific@,
            ),
        )
        .push(
            layout::named_row(
                "Pressure-correction raw L2 residual norm"@,
                report.final_pressure_correction_residual_norm.scientific@,
            ),
        )
        .push(layout::named_row("HbyA L2 norm"@, report.operator_summary.hby_a_l2_norm.scientific@))
        .push(layout::named_row("Wall clock [s]"@, seconds.scientific@))
        .push(
            layout::named_row(
                "Velocity magnitude min"@,
                report.fields.velocity.min_magnitude.scientific@,
            ),
        )
        .push(
            layout::named_row(
                "Velocity magnitude max"@,
                report.fields.velocity.max_magnitude.scientific@,
            ),
        )
        .push(layout::named_row("Velocity L2 norm"@, report.fields.velocity.l2_norm.scientific@))
        .push(layout::named_row("Pressure min [Pa]"@, report.fields.pressure.min.scientific@))
        .push(layout::named_row("Pressure max [Pa]"@, report.fields.pressure.max.scientific@))
        .push(layout::named_row("Pressure L2 norm"@, report.fields.pressure.l2_norm.scientific@))
        .push(Seq::empty())
}

fn result(report: &LaminarSimpleReport, seconds: &Real) -> (lines: TextList)
    ensures
        lines@ == result_lines(*report, *seconds),
{
    let mut lines = TextList::new();
    lines.add("## Result");
    lines.blank();
    lines.add("| Quantity | Value |");
    lines.add("| --- | ---: |");
    lines.named("SIMPLE iterations", text::number_text(report.simple_iterations).as_str());
    lines.named("Converged", layout::yes_no_text(report.converged));
    lines.named("Stop reason", report.stop_reason.to_string().as_str());
    lines.named("residualControl state", simple::residual_control_state(&report.residual_control));
    lines.named(
        "U residualControl satisfied",
        layout::opt_yes_no_text(report.residual_control.momentum_satisfied),
    );
    lines.named(
        "p residualControl satisfied",
        layout::opt_yes_no_text(report.residual_control.pressure_satisfied),
    );
    lines.named(
        "Final momentum linear converged",
        layout::yes_no_text(report.linear_solve_summary.final_momentum_linear_converged),
    );
    lines.named(
        "Final pressure linear converged",
        layout::yes_no_text(report.linear_solve_summary.final_pressure_linear_converged),
    );
    lines.named("Final continuity L2", report.final_continuity.l2_norm.scientific.as_str());
    lines.named(
        "Final SIMPLE iteration U initial residual",
        report.final_momentum_initial_normalized_residual_norm.scientific.as_str(),
    );
    lines.named(
        "Final SIMPLE iteration U final residual",
        report.final_momentum_normalized_residual_norm.scientific.as_str(),
    );
    lines.named(
        "Momentum raw L2 residual norm",
        report.final_momentum_residual_norm.scientific.as_str(),
    );
    lines.named(
        "Final SIMPLE iteration p initial residual",
        report.final_pressure_correction_initial_normalized_residual_norm.scientific.as_str(),
    );
    lines.named(
        "Final SIMPLE iteration p final residual",
        report.final_pressure_correction_normalized_residual_norm.scientific.as_str(),
    );
    lines.named(
        "Pressure-correction raw L2 residual norm",
        report.final_pressure_correction_residual_norm.scientific.as_str(),
    );
    lines.named("HbyA L2 norm", report.operator_summary.hby_a_l2_norm.scientific.as_str());
    lines.named("Wall clock [s]", seconds.scientific.as_str());
    lines.named("Velocity magnitude min", report.fields.velocity.min_magnitude.scientific.as_str());
    lines.named("Velocity magnitude max", report.fields.velocity.max_magnitude.scientific.as_str());
    lines.named("Velocity L2 norm", report.fields.velocity.l2_norm.scientific.as_str());
    lines.named("Pressure min [Pa]", report.fields.pressure.min.scientific.as_str());
    lines.named("Pressure max [Pa]", report.fields.pressure.max.scientific.as_str());
    lines.named("Pressure L2 norm", report.fields.pressure.l2_norm.scientific.as_str());
    lines.blank();
    lines
}

/// The linear systems of the Markdown report.
pub open spec fn profile_lines(report: LaminarSimpleReport) -> Seq<Seq<char>> {
    Seq::empty()
        .push("## Linear Solve Profile"@)
        .push(Seq::empty())
        .push("| Quantity | Value |"@)
        .push("| --- | ---: |"@)
        .push(
            layout::named_row(
                "Momentum predictors"@,
                text::decimal(report.linear_solve_summary.momentum_predictors as nat),
            ),
        )
        .push(
            layout::named_row(
                "Momentum non-converged predictors"@,
                text::decimal(report.linear_solve_summary.momentum_non_converged_predictors as nat),
            ),
        )
        .push(
            layout::named_row(
                "Momentum component solves"@,
                text::decimal(report.linear_solve_summary.momentum_component_solves as nat),
            ),
        )
        .push(
            layout::named_row(
                "Momentum component non-converged solves"@,
                text::decimal(
                    report.linear_solve_summary.momentum_component_non_converged_solves as nat,
                ),
            ),
        )
        .push(
            layout::named_row(
                "Pressure correction solves"@,
                text::decimal(report.linear_solve_summary.pressure_correction_solves as nat),
            ),
        )
        .push(
            layout::named_row(
                "Pressure correction non-converged solves"@,
                text::decimal(
                    report.linear_solve_summary.pressure_correction_non_converged_solves as nat,
                ),
            ),
        )
        .push(
            layout::named_row(
                "Max momentum linear iterations per SIMPLE"@,
                text::decimal(
                    report.linear_solve_summary.max_momentum_linear_iterations_per_simple as nat,
                ),
            ),
        )
        .push(
            layout::named_row(
                "Max pressure linear iterations per SIMPLE"@,
                text::decimal(
                    report.linear_solve_summary.max_pressure_linear_iterations_per_simple as nat,
                ),
            ),
        )
        .push(
            layout::named_row(
                "Average momentum linear iterations per SIMPLE"@,
                report.linear_solve_summary.average_momentum_linear_iterations_per_simple.scientific@,
            ),
        )
        .push(
            layout::named_row(
                "Average pressure linear iterations per SIMPLE"@,
                report.linear_solve_summary.average_pressure_linear_iterations_per_simple.scientific@,
            ),
        )
        .push(Seq::empty())
}

fn profile(report: &LaminarSimpleReport) -> (lines: TextList)
    ensures
        lines@ == profile_lines(*report),
{
    let mut lines = TextList::new();
    lines.add("## Linear Solve Profile");
    lines.blank();
    lines.add("| Quantity | Value |");
    lines.add("| --- | ---: |");
    lines.named(
        "Momentum predictors",
        text::number_text(report.linear_solve_summary.momentum_predictors).as_str(),
    );
    lines.named(
        "Momentum non-converged predictors",
        text::number_text(report.linear_solve_summary.momentum_non_converged_predictors).as_str(),
    );
    lines.named(
        "Momentum component solves",
        text::number_text(report.linear_solve_summary.momentum_component_solves).as_str(),
    );
    lines.named(
        "Momentum component non-converged solves",
        text::number_text(
            report.linear_solve_summary.momentum_component_non_converged_solves,
        ).as_str(),
    );
    lines.named(
        "Pressure correction solves",
        text::number_text(report.linear_solve_summary.pressure_correction_solves).as_str(),
    );
    lines.named(
        "Pressure correction non-converged solves",
        text::number_text(
            report.linear_solve_summary.pressure_correction_non_converged_solves,
        ).as_str(),
    );
    lines.named(
        "Max momentum linear iterations per SIMPLE",
        text::number_text(
            report.linear_solve_summary.max_momentum_linear_iterations_per_simple,
        ).as_str(),
    );
    lines.named(
        "Max pressure linear iterations per SIMPLE",
        text::number_text(
            report.linear_solve_summary.max_pressure_linear_iterations_per_simple,
        ).as_str(),
    );
    lines.named(
        "Average momentum linear iterations per SIMPLE",
        report.linear_solve_summary.average_momentum_linear_iterations_per_simple.scientific.as_str(),
    );
    lines.named(
        "Average pressure linear iterations per SIMPLE",
        report.linear_solve_summary.average_pressure_linear_iterations_per_simple.scientific.as_str(),
    );
    lines.blank();
    lines
}

/// The pressure equation of the Markdown report.
pub open spec fn assembly_lines(found: PressureAssemblyDiagnostics) -> Seq<Seq<char>> {
    Seq::empty()
        .push("## Pressure Assembly Diagnostics"@)
        .push(Seq::empty())
        .push("| Field | Min | Max | L2 | Sum abs |"@)
        .push("| --- | ---: | ---: | ---: | ---: |"@)
        .push(
            layout::table_row(
                Seq::empty()
                    .push("rAU"@)
                    .push(found.r_au.min.scientific@)
                    .push(found.r_au.max.scientific@)
                    .push(found.r_au.l2_norm.scientific@)
                    .push(found.r_au.sum_abs.scientific@),
            ),
        )
        .push(
            layout::table_row(
                Seq::empty()
                    .push("rAtU"@)
                    .push(found.r_at_u.min.scientific@)
                    .push(found.r_at_u.max.scientific@)
                    .push(found.r_at_u.l2_norm.scientific@)
                    .push(found.r_at_u.sum_abs.scientific@),
            ),
        )
        .push(
            layout::table_row(
                Seq::empty()
                    .push("pressureSource"@)
                    .push(found.pressure_source.min.scientific@)
                    .push(found.pressure_source.max.scientific@)
                    .push(found.pressure_source.l2_norm.scientific@)
                    .push(found.pressure_source.sum_abs.scientific@),
            ),
        )
        .push(Seq::empty())
        .push("| Vector | Magnitude min | Magnitude max | L2 | x min/max |"@)
        .push("| --- | ---: | ---: | ---: | --- |"@)
        .push(
            layout::table_row(
                Seq::empty()
                    .push("HbyA"@)
                    .push(found.hby_a.min_magnitude.scientific@)
                    .push(found.hby_a.max_magnitude.scientific@)
                    .push(found.hby_a.l2_norm.scientific@)
                    .push(
                        layout::pair(found.hby_a.x_min.scientific@, found.hby_a.x_max.scientific@),
                    ),
            ),
        )
        .push(Seq::empty())
        .push(
            "| Matrix | Rows | Nonzeros | Diagonal min/max | Off-diagonal sum abs | Max row sum abs |"@,
        )
        .push("| --- | ---: | ---: | --- | ---: | ---: |"@)
        .push(
            layout::table_row(
                Seq::empty()
                    .push("pressureMatrix"@)
                    .push(text::decimal(found.pressure_matrix.rows as nat))
                    .push(text::decimal(found.pressure_matrix.nonzeros as nat))
                    .push(
                        layout::pair(
                            found.pressure_matrix.diagonal_min.scientific@,
                            found.pressure_matrix.diagonal_max.scientific@,
                        ),
                    )
                    .push(found.pressure_matrix.off_diagonal_sum_abs.scientific@)
                    .push(found.pressure_matrix.max_row_sum_abs.scientific@),
            ),
        )
        .push(Seq::empty())
        .push("| Face flux | Boundary sum | Boundary sum abs | Total sum abs | L2 |"@)
        .push("| --- | ---: | ---: | ---: | ---: |"@)
        .push(
            layout::table_row(
                Seq::empty()
                    .push("phiHbyA before adjust"@)
                    .push(found.phi_hby_a_before_adjust.boundary_sum.scientific@)
                    .push(found.phi_hby_a_before_adjust.boundary_sum_abs.scientific@)
                    .push(found.phi_hby_a_before_adjust.sum_abs.scientific@)
                    .push(found.phi_hby_a_before_adjust.l2_norm.scientific@),
            ),
        )
        .push(
            layout::table_row(
                Seq::empty()
                    .push("phiHbyA after adjust"@)
                    .push(found.phi_hby_a_after_adjust.boundary_sum.scientific@)
                    .push(found.phi_hby_a_after_adjust.boundary_sum_abs.scientific@)
                    .push(found.phi_hby_a_after_adjust.sum_abs.scientific@)
                    .push(found.phi_hby_a_after_adjust.l2_norm.scientific@),
            ),
        )
        .push(
            layout::table_row(
                Seq::empty()
                    .push("pressureEquationFlux"@)
                    .push(found.pressure_equation_flux.boundary_sum.scientific@)
                    .push(found.pressure_equation_flux.boundary_sum_abs.scientific@)
                    .push(found.pressure_equation_flux.sum_abs.scientific@)
                    .push(found.pressure_equation_flux.l2_norm.scientific@),
            ),
        )
        .push(
            layout::table_row(
                Seq::empty()
                    .push("pressureFlux"@)
                    .push(found.pressure_flux.boundary_sum.scientific@)
                    .push(found.pressure_flux.boundary_sum_abs.scientific@)
                    .push(found.pressure_flux.sum_abs.scientific@)
                    .push(found.pressure_flux.l2_norm.scientific@),
            ),
        )
        .push(
            layout::table_row(
                Seq::empty()
                    .push("correctedPhi"@)
                    .push(found.corrected_phi.boundary_sum.scientific@)
                    .push(found.corrected_phi.boundary_sum_abs.scientific@)
                    .push(found.corrected_phi.sum_abs.scientific@)
                    .push(found.corrected_phi.l2_norm.scientific@),
            ),
        )
        .push(Seq::empty())
}

fn assembly(found: &PressureAssemblyDiagnostics) -> (lines: TextList)
    ensures
        lines@ == assembly_lines(*found),
{
    let mut lines = TextList::new();
    lines.add("## Pressure Assembly Diagnostics");
    lines.blank();
    lines.add("| Field | Min | Max | L2 | Sum abs |");
    lines.add("| --- | ---: | ---: | ---: | ---: |");
    let mut cells = TextList::new();
    cells.add("rAU");
    cells.add(found.r_au.min.scientific.as_str());
    cells.add(found.r_au.max.scientific.as_str());
    cells.add(found.r_au.l2_norm.scientific.as_str());
    cells.add(found.r_au.sum_abs.scientific.as_str());
    lines.row(&cells);
    let mut cells = TextList::new();
    cells.add("rAtU");
    cells.add(found.r_at_u.min.scientific.as_str());
    cells.add(found.r_at_u.max.scientific.as_str());
    cells.add(found.r_at_u.l2_norm.scientific.as_str());
    cells.add(found.r_at_u.sum_abs.scientific.as_str());
    lines.row(&cells);
    let mut cells = TextList::new();
    cells.add("pressureSource");
    cells.add(found.pressure_source.min.scientific.as_str());
    cells.add(found.pressure_source.max.scientific.as_str());
    cells.add(found.pressure_source.l2_norm.scientific.as_str());
    cells.add(found.pressure_source.sum_abs.scientific.as_str());
    lines.row(&cells);
    lines.blank();
    lines.add("| Vector | Magnitude min | Magnitude max | L2 | x min/max |");
    lines.add("| --- | ---: | ---: | ---: | --- |");
    let mut cells = TextList::new();
    cells.add("HbyA");
    cells.add(found.hby_a.min_magnitude.scientific.as_str());
    cells.add(found.hby_a.max_magnitude.scientific.as_str());
    cells.add(found.hby_a.l2_norm.scientific.as_str());
    cells.add(
        layout::pair_text(
            found.hby_a.x_min.scientific.as_str(),
            found.hby_a.x_max.scientific.as_str(),
        ).as_str(),
    );
    lines.row(&cells);
    lines.blank();
    lines.add(
        "| Matrix | Rows | Nonzeros | Diagonal min/max | Off-diagonal sum abs | Max row sum abs |",
    );
    lines.add("| --- | ---: | ---: | --- | ---: | ---: |");
    let mut cells = TextList::new();
    cells.add("pressureMatrix");
    cells.add(text::number_text(found.pressure_matrix.rows).as_str());
    cells.add(text::number_text(found.pressure_matrix.nonzeros).as_str());
    cells.add(
        layout::pair_text(
            found.pressure_matrix.diagonal_min.scientific.as_str(),
            found.pressure_matrix.diagonal_max.scientific.as_str(),
        ).as_str(),
    );
    cells.add(found.pressure_matrix.off_diagonal_sum_abs.scientific.as_str());
    cells.add(found.pressure_matrix.max_row_sum_abs.scientific.as_str());
    lines.row(&cells);
    lines.blank();
    lines.add("| Face flux | Boundary sum | Boundary sum abs | Total sum abs | L2 |");
    lines.add("| --- | ---: | ---: | ---: | ---: |");
    let mut cells = TextList::new();
    cells.add("phiHbyA before adjust");
    cells.add(found.phi_hby_a_before_adjust.boundary_sum.scientific.as_str());
    cells.add(found.phi_hby_a_before_adjust.boundary_sum_abs.scientific.as_str());
    cells.add(found.phi_hby_a_before_adjust.sum_abs.scientific.as_str());
    cells.add(found.phi_hby_a_before_adjust.l2_norm.scientific.as_str());
    lines.row(&cells);
    let mut cells = TextList::new();
    cells.add("phiHbyA after adjust");
    cells.add(found.phi_hby_a_after_adjust.boundary_sum.scientific.as_str());
    cells.add(found.phi_hby_a_after_adjust.boundary_sum_abs.scientific.as_str());
    cells.add(found.phi_hby_a_after_adjust.sum_abs.scientific.as_str());
    cells.add(found.phi_hby_a_after_adjust.l2_norm.scientific.as_str());
    lines.row(&cells);
    let mut cells = TextList::new();
    cells.add("pressureEquationFlux");
    cells.add(found.pressure_equation_flux.boundary_sum.scientific.as_str());
    cells.add(found.pressure_equation_flux.boundary_sum_abs.scientific.as_str());
    cells.add(found.pressure_equation_flux.sum_abs.scientific.as_str());
    cells.add(found.pressure_equation_flux.l2_norm.scientific.as_str());
    lines.row(&cells);
    let mut cells = TextList::new();
    cells.add("pressureFlux");
    cells.add(found.pressure_flux.boundary_sum.scientific.as_str());
    cells.add(found.pressure_flux.boundary_sum_abs.scientific.as_str());
    cells.add(found.pressure_flux.sum_abs.scientific.as_str());
    cells.add(found.pressure_flux.l2_norm.scientific.as_str());
    lines.row(&cells);
    let mut cells = TextList::new();
    cells.add("correctedPhi");
    cells.add(found.corrected_phi.boundary_sum.scientific.as_str());
    cells.add(found.corrected_phi.boundary_sum_abs.scientific.as_str());
    cells.add(found.corrected_phi.sum_abs.scientific.as_str());
    cells.add(found.corrected_phi.l2_norm.scientific.as_str());
    lines.row(&cells);
    lines.blank();
    lines
}

fn accepted_text(accepted: bool) -> (out: &'static str)
    ensures
        out@ == (if accepted {
            "accepted"@
        } else {
            "skipped"@
        }),
{
    if accepted {
        "accepted"
    } else {
        "skipped"
    }
}

fn case_line(case_dir: &str) -> (line: String)
    ensures
        line@ == "Case: `"@ + case_dir@ + "`"@,
{
    let mut line = "Case: `".to_string();
    line.append(case_dir);
    line.append("`");
    line
}

/// The cells of an iteration in the Markdown report.
pub open spec fn markdown_iteration_cells(item: LaminarSimpleIterationSummary) -> Seq<Seq<char>> {
    Seq::empty()
        .push(text::decimal(item.iteration as nat))
        .push(item.continuity_before.l2_norm.scientific@)
        .push(item.continuity_after.l2_norm.scientific@)
        .push((if item.pressure_correction_accepted {
            "accepted"@
        } else {
            "skipped"@
        }))
        .push(item.momentum_initial_normalized_residual_norm.scientific@)
        .push(item.momentum_normalized_residual_norm.scientific@)
        .push(
            layout::pair(
                text::decimal(item.momentum_linear_iterations as nat),
                layout::yes_no(item.momentum_linear_converged),
            ),
        )
        .push(
            layout::triple(
                item.momentum_component_initial_normalized_residual_norms[0].scientific@,
                item.momentum_component_initial_normalized_residual_norms[1].scientific@,
                item.momentum_component_initial_normalized_residual_norms[2].scientific@,
            ),
        )
        .push(
            layout::triple(
                item.momentum_component_normalized_residual_norms[0].scientific@,
                item.momentum_component_normalized_residual_norms[1].scientific@,
                item.momentum_component_normalized_residual_norms[2].scientific@,
            ),
        )
        .push(item.pressure_correction_initial_normalized_residual_norm.scientific@)
        .push(item.pressure_correction_normalized_residual_norm.scientific@)
        .push(
            layout::pair(
                text::decimal(item.pressure_linear_iterations as nat),
                layout::yes_no(item.pressure_linear_converged),
            ),
        )
        .push(
            layout::pair(
                text::decimal(item.pressure_linear_solves as nat),
                text::decimal(item.pressure_linear_non_converged_solves as nat),
            ),
        )
        .push(simple::residual_control_name(item.residual_control))
        .push(
            layout::pair(
                item.momentum_diagonal_min.scientific@,
                item.momentum_diagonal_max.scientific@,
            ),
        )
        .push(layout::pair(item.momentum_h1_min.scientific@, item.momentum_h1_max.scientific@))
        .push(
            layout::triple(
                item.adjust_phi_global_flux_before.scientific@,
                item.adjust_phi_global_flux_after.scientific@,
                text::decimal(item.adjust_phi_adjusted_faces as nat),
            ),
        )
        .push(item.relative_velocity_change_l2.percent@)
        .push(item.relative_pressure_change_l2.percent@)
}

fn markdown_iteration(item: &LaminarSimpleIterationSummary) -> (cells: TextList)
    ensures
        cells@ == markdown_iteration_cells(*item),
{
    let mut cells = TextList::new();
    cells.add(text::number_text(item.iteration).as_str());
    cells.add(item.continuity_before.l2_norm.scientific.as_str());
    cells.add(item.continuity_after.l2_norm.scientific.as_str());
    cells.add(accepted_text(item.pressure_correction_accepted));
    cells.add(item.momentum_initial_normalized_residual_norm.scientific.as_str());
    cells.add(item.momentum_normalized_residual_norm.scientific.as_str());
    cells.add(
        layout::pair_text(
            text::number_text(item.momentum_linear_iterations).as_str(),
            layout::yes_no_text(item.momentum_linear_converged),
        ).as_str(),
    );
    cells.add(
        layout::triple_text(
            item.momentum_component_initial_normalized_residual_norms[0].scientific.as_str(),
            item.momentum_component_initial_normalized_residual_norms[1].scientific.as_str(),
            item.momentum_component_initial_normalized_residual_norms[2].scientific.as_str(),
        ).as_str(),
    );
    cells.add(
        layout::triple_text(
            item.momentum_component_normalized_residual_norms[0].scientific.as_str(),
            item.momentum_component_normalized_residual_norms[1].scientific.as_str(),
            item.momentum_component_normalized_residual_norms[2].scientific.as_str(),
        ).as_str(),
    );
    cells.add(item.pressure_correction_initial_normalized_residual_norm.scientific.as_str());
    cells.add(item.pressure_correction_normalized_residual_norm.scientific.as_str());
    cells.add(
        layout::pair_text(
            text::number_text(item.pressure_linear_iterations).as_str(),
            layout::yes_no_text(item.pressure_linear_converged),
        ).as_str(),
    );
    cells.add(
        layout::pair_text(
            text::number_text(item.pressure_linear_solves).as_str(),
            text::number_text(item.pressure_linear_non_converged_solves).as_str(),
        ).as_str(),
    );
    cells.add(simple::residual_control_state(&item.residual_control));
    cells.add(
        layout::pair_text(
            item.momentum_diagonal_min.scientific.as_str(),
            item.momentum_diagonal_max.scientific.as_str(),
        ).as_str(),
    );
    cells.add(
        layout::pair_text(
            item.momentum_h1_min.scientific.as_str(),
            item.momentum_h1_max.scientific.as_str(),
        ).as_str(),
    );
    cells.add(
        layout::triple_text(
            item.adjust_phi_global_flux_before.scientific.as_str(),
            item.adjust_phi_global_flux_after.scientific.as_str(),
            text::number_text(item.adjust_phi_adjusted_faces).as_str(),
        ).as_str(),
    );
    cells.add(item.relative_velocity_change_l2.percent.as_str());
    cells.add(item.relative_pressure_change_l2.percent.as_str());
    cells
}

/// The values of an iteration in the CSV report.
pub open spec fn csv_iteration_cells(item: LaminarSimpleIterationSummary) -> Seq<Seq<char>> {
    Seq::empty()
        .push(text::decimal(item.iteration as nat))
        .push(item.continuity_before.l2_norm.display@)
        .push(item.continuity_after.l2_norm.display@)
        .push(item.momentum_initial_normalized_residual_norm.display@)
        .push(item.momentum_normalized_residual_norm.display@)
        .push(item.momentum_residual_norm.display@)
        .push(item.pressure_correction_initial_normalized_residual_norm.display@)
        .push(item.pressure_correction_normalized_residual_norm.display@)
        .push(item.pressure_correction_residual_norm.display@)
        .push(text::bool_text(item.residual_control.configured))
        .push(text::bool_text(item.residual_control.checked))
        .push(text::bool_text(item.residual_control.satisfied))
        .push(text::bool_text(item.pressure_correction_accepted))
        .push(text::decimal(item.momentum_linear_iterations as nat))
        .push(text::bool_text(item.momentum_linear_converged))
        .push(text::decimal(item.pressure_linear_iterations as nat))
        .push(text::bool_text(item.pressure_linear_converged))
        .push(item.relative_velocity_change_l2.display@)
        .push(item.relative_pressure_change_l2.display@)
}

fn csv_iteration(item: &LaminarSimpleIterationSummary) -> (cells: TextList)
    ensures
        cells@ == csv_iteration_cells(*item),
{
    let mut cells = TextList::new();
    cells.add(text::number_text(item.iteration).as_str());
    cells.add(item.continuity_before.l2_norm.display.as_str());
    cells.add(item.continuity_after.l2_norm.display.as_str());
    cells.add(item.momentum_initial_normalized_residual_norm.display.as_str());
    cells.add(item.momentum_normalized_residual_norm.display.as_str());
    cells.add(item.momentum_residual_norm.display.as_str());
    cells.add(item.pressure_correction_initial_normalized_residual_norm.display.as_str());
    cells.add(item.pressure_correction_normalized_residual_norm.display.as_str());
    cells.add(item.pressure_correction_residual_norm.display.as_str());
    cells.add(text::flag_text(item.residual_control.configured));
    cells.add(text::flag_text(item.residual_control.checked));
    cells.add(text::flag_text(item.residual_control.satisfied));
    cells.add(text::flag_text(item.pressure_correction_accepted));
    cells.add(text::number_text(item.momentum_linear_iterations).as_str());
    cells.add(text::flag_text(item.momentum_linear_converged));
    cells.add(text::number_text(item.pressure_linear_iterations).as_str());
    cells.add(text::flag_text(item.pressure_linear_converged));
    cells.add(item.relative_velocity_change_l2.display.as_str());
    cells.add(item.relative_pressure_change_l2.display.as_str());
    cells
}

/// The rows of the iterations in the Markdown report.
pub open spec fn markdown_rows(history: Seq<LaminarSimpleIterationSummary>) -> Seq<Seq<char>> {
    Seq::new(history.len(), |i: int| layout::table_row(markdown_iteration_cells(history[i])))
}

/// The iterations of the Markdown report.
pub open spec fn iterations_lines(history: Seq<LaminarSimpleIterationSummary>) -> Seq<Seq<char>> {
    Seq::empty()
        .push("## Iterations"@)
        .push(Seq::empty())
        .push(
        "| Iteration | Continuity before | Continuity after | Pressure correction | U initial | U final | U linear iter/ok | U components initial | U components final | p initial | p final | p linear iter/ok | p-solves/nonconv | residualControl | A diag min/max | H1 min/max | adjustPhi before/after/faces | U change | p change |"@,
    ).push(
        "| ---: | ---: | ---: | --- | ---: | ---: | --- | --- | --- | ---: | ---: | --- | --- | --- | --- | --- | --- | ---: | ---: |"@,
    ) + markdown_rows(history)
}

fn iterations(history: &Vec<LaminarSimpleIterationSummary>) -> (lines: TextList)
    ensures
        lines@ == iterations_lines(history@),
{
    let mut lines = TextList::new();
    lines.add("## Iterations");
    lines.blank();
    lines.add(
        "| Iteration | Continuity before | Continuity after | Pressure correction | U initial | U final | U linear iter/ok | U components initial | U components final | p initial | p final | p linear iter/ok | p-solves/nonconv | residualControl | A diag min/max | H1 min/max | adjustPhi before/after/faces | U change | p change |",
    );
    lines.add(
        "| ---: | ---: | ---: | --- | ---: | ---: | --- | --- | --- | ---: | ---: | --- | --- | --- | --- | --- | --- | ---: | ---: |",
    );
    let ghost head = lines@;
    let ghost rows = markdown_rows(history@);
    let mut i: usize = 0;
    assert(head =~= head + rows.take(0));
    while i < history.len()
        invariant
            i <= history@.len(),
            rows == markdown_rows(history@),
            lines@ == head + rows.take(i as int),
        decreases history@.len() - i,
    {
        let cells = markdown_iteration(&history[i]);
        lines.row(&cells);
        assert(lines@ =~= head + rows.take(i + 1));
        i += 1;
    }
    assert(rows.take(i as int) =~= rows);
    lines
}

/// The lines of the Markdown report.
pub open spec fn markdown_lines(
    case_dir: Seq<char>,
    options: LaminarSimpleOptions,
    report: LaminarSimpleReport,
    seconds: Real,
) -> Seq<Seq<char>> {
    input_lines(case_dir, options) + result_lines(report, seconds) + profile_lines(report) + (
    match report.pressure_assembly {
        Some(found) => assembly_lines(found),
        None => Seq::empty(),
    }) + iterations_lines(report.history@)
}

/// The Markdown report of a run that took `seconds`.
pub fn laminar_simple_report_markdown(
    case_dir: &str,
    options: &LaminarSimpleOptions,
    report: &LaminarSimpleReport,
    seconds: &Real,
) -> (out: String)
    ensures
        out@ == layout::lines_text(markdown_lines(case_dir@, *options, *report, *seconds)),
{
    let mut lines = input(case_dir, options);
    lines.extend(result(report, seconds));
    lines.extend(profile(report));
    match &report.pressure_assembly {
        Some(found) => {
            lines.extend(assembly(found));
        },
        None => {
            lines.extend(TextList::new());
        },
    }
    lines.extend(iterations(&report.history));
    lines.as_lines()
}

/// The lines of the CSV report: a header and one line for each iteration.
pub open spec fn csv_lines(history: Seq<LaminarSimpleIterationSummary>) -> Seq<Seq<char>> {
    seq![
        "iteration,continuityBeforeL2,continuityAfterL2,momentumInitialResidualNormalized,momentumFinalResidualNormalized,momentumResidualNorm,pressureInitialResidualNormalized,pressureFinalResidualNormalized,pressureResidualNorm,residualControlConfigured,residualControlChecked,residualControlSatisfied,pressureCorrectionAccepted,momentumLinearIterations,momentumLinearConverged,pressureLinearIterations,pressureLinearConverged,relativeVelocityChangeL2,relativePressureChangeL2"@,
    ] + Seq::new(history.len(), |i: int| text::join(csv_iteration_cells(history[i]), ","@))
}

/// The CSV report of the iterations of a run.
pub fn laminar_simple_residual_csv(report: &LaminarSimpleReport) -> (out: String)
    ensures
        out@ == layout::lines_text(csv_lines(report.history@)),
{
    let history = &report.history;
    let mut lines = TextList::new();
    lines.add(
        "iteration,continuityBeforeL2,continuityAfterL2,momentumInitialResidualNormalized,momentumFinalResidualNormalized,momentumResidualNorm,pressureInitialResidualNormalized,pressureFinalResidualNormalized,pressureResidualNorm,residualControlConfigured,residualControlChecked,residualControlSatisfied,pressureCorrectionAccepted,momentumLinearIterations,momentumLinearConverged,pressureLinearIterations,pressureLinearConverged,relativeVelocityChangeL2,relativePressureChangeL2",
    );
    let ghost all = csv_lines(history@);
    let mut i: usize = 0;
    assert(lines@ =~= all.take(1));
    while i < history.len()
        invariant
            i <= history@.len(),
            all == csv_lines(history@),
            lines@ == all.take(i + 1),
        decreases history@.len() - i,
    {
        let cells = csv_iteration(&history[i]);
        lines.push(cells.joined(","));
        assert(lines@ =~= all.take(i + 2));
        i += 1;
    }
    assert(lines@ =~= all);
    lines.as_lines()
}

/// A count behind blanks that fill it up to four places.
pub open spec fn padded(n: nat) -> Seq<char> {
    let digits = text::decimal(n);
    if digits.len() < 4 {
        Seq::new((4 - digits.len()) as nat, |i: int| ' ') + digits
    } else {
        digits
    }
}

fn padded_text(n: usize) -> (out: String)
    ensures
        out@ == padded(n as nat),
{
    let digits = text::number_text(n);
    let chars = text::chars_of(digits.as_str());
    let mut out = String::new();
    let mut width: usize = chars.len();
    let ghost missing = if chars@.len() < 4 { 4 - chars@.len() } else { 0 };
    while width < 4
        invariant
            chars@.len() <= width,
            missing == (if chars@.len() < 4 { 4 - chars@.len() } else { 0 }),
            width <= chars@.len() + missing,
            out@ == Seq::new((width - chars@.len()) as nat, |i: int| ' '),
        decreases 4 - width,
    {
        out.push(' ');
        assert(out@ =~= Seq::new((width + 1 - chars@.len()) as nat, |i: int| ' '));
        width += 1;
    }
    out.append(digits.as_str());
    assert(out@ =~= padded(n as nat));
    out
}

/// What is shown of an iteration.
pub open spec fn iteration_progress_line(item: LaminarSimpleIterationSummary) -> Seq<char> {
    "  SIMPLE "@
        + padded(item.iteration as nat)
        + ": U initial="@
        + item.momentum_initial_normalized_residual_norm.scientific@
        + " final="@
        + item.momentum_normalized_residual_norm.scientific@
        + " linearConverged="@
        + layout::yes_no(item.momentum_linear_converged)
        + " linearIterations="@
        + text::decimal(item.momentum_linear_iterations as nat)
        + " | p initial="@
        + item.pressure_correction_initial_normalized_residual_norm.scientific@
        + " final="@
        + item.pressure_correction_normalized_residual_norm.scientific@
        + " linearConverged="@
        + layout::yes_no(item.pressure_linear_converged)
        + " linearIterations="@
        + text::decimal(item.pressure_linear_iterations as nat)
        + " | continuityL2="@
        + item.continuity_after.l2_norm.scientific@
        + " | residualControl="@
        + simple::residual_control_name(item.residual_control)
}

/// What is shown of an iteration.
pub fn iteration_progress(item: &LaminarSimpleIterationSummary) -> (line: String)
    ensures
        line@ == iteration_progress_line(*item),
{
    let mut line = "  SIMPLE ".to_string();
    line.append(padded_text(item.iteration).as_str());
    line.append(": U initial=");
    line.append(item.momentum_initial_normalized_residual_norm.scientific.as_str());
    line.append(" final=");
    line.append(item.momentum_normalized_residual_norm.scientific.as_str());
    line.append(" linearConverged=");
    line.append(layout::yes_no_text(item.momentum_linear_converged));
    line.append(" linearIterations=");
    line.append(text::number_text(item.momentum_linear_iterations).as_str());
    line.append(" | p initial=");
    line.append(item.pressure_correction_initial_normalized_residual_norm.scientific.as_str());
    line.append(" final=");
    line.append(item.pressure_correction_normalized_residual_norm.scientific.as_str());
    line.append(" linearConverged=");
    line.append(layout::yes_no_text(item.pressure_linear_converged));
    line.append(" linearIterations=");
    line.append(text::number_text(item.pressure_linear_iterations).as_str());
    line.append(" | continuityL2=");
    line.append(item.continuity_after.l2_norm.scientific.as_str());
    line.append(" | residualControl=");
    line.append(simple::residual_control_state(&item.residual_control));
    line
}

/// What is shown of a run; `wall_clock` is its time with six decimals.
pub open spec fn solve_summary_line(options: LaminarSimpleOptions, report: LaminarSimpleReport, wall_clock: Seq<char>) -> Seq<char> {
    "laminarSimple solve: backend=cpu linearSolver="@
        + flow::solver_name(options.linear_solver)
        + " momentumLinearSolver="@
        + flow::solver_name(options.momentum_linear_solver)
        + " momentumPreconditioner="@
        + flow::preconditioner_name(options.momentum_preconditioner)
        + " pressureLinearSolver="@
        + flow::solver_name(options.pressure_linear_solver)
        + " pressurePreconditioner="@
        + flow::preconditioner_name(options.pressure_preconditioner)
        + " divPhiU=\""@
        + schemes::convection_name(options.schemes.div_phi_u)
        + "\" gradP=\""@
        + schemes::gradient_name(options.schemes.grad_p)
        + "\" gradU=\""@
        + schemes::gradient_name(options.schemes.grad_u)
        + "\" laplacian=\""@
        + schemes::laplacian_name(options.schemes.laplacian)
        + "\" snGrad=\""@
        + schemes::sn_grad_name(options.schemes.sn_grad)
        + "\" interpolation=\""@
        + schemes::interpolation_name(options.schemes.interpolation)
        + "\" pRefCell="@
        + layout::count_or(options.pressure_reference_cell, "n/a"@)
        + " pRefValue="@
        + options.pressure_reference_value.scientific@
        + " nonOrthogonalCorrectors="@
        + text::decimal(options.non_orthogonal_correctors as nat)
        + " consistent="@
        + layout::yes_no(options.simple_consistent)
        + " stopReason="@
        + simple::stop_reason_name(report.stop_reason)
        + " cells="@
        + text::decimal(report.cells as nat)
        + " faces="@
        + text::decimal(report.faces as nat)
        + " simpleIterations="@
        + text::decimal(report.simple_iterations as nat)
        + " minSimpleIterations="@
        + text::decimal(options.min_simple_iterations as nat)
        + " converged="@
        + layout::yes_no(report.converged)
        + " residualControl="@
        + simple::residual_control_name(report.residual_control)
        + " initialContinuityL2="@
        + report.initial_continuity.l2_norm.scientific@
        + " finalContinuityL2="@
        + report.final_continuity.l2_norm.scientific@
        + " momentumInitialResidual="@
        + report.final_momentum_initial_normalized_residual_norm.scientific@
        + " momentumFinalResidual="@
        + report.final_momentum_normalized_residual_norm.scientific@
        + " momentumResidualNorm="@
        + report.final_momentum_residual_norm.scientific@
        + " pressureInitialResidual="@
        + report.final_pressure_correction_initial_normalized_residual_norm.scientific@
        + " pressureFinalResidual="@
        + report.final_pressure_correction_normalized_residual_norm.scientific@
        + " pressureResidualNorm="@
        + report.final_pressure_correction_residual_norm.scientific@
        + " momentumLinearIterations="@
        + text::decimal(report.total_momentum_linear_iterations as nat)
        + " pressureLinearIterations="@
        + text::decimal(report.total_pressure_linear_iterations as nat)
        + " wallClockSeconds="@
        + wall_clock
}

/// What is shown of a run; `wall_clock` is its time with six decimals.
pub fn solve_summary(options: &LaminarSimpleOptions, report: &LaminarSimpleReport, wall_clock: &str) -> (line: String)
    ensures
        line@ == solve_summary_line(*options, *report, wall_clock@),
{
    let mut line = "laminarSimple solve: backend=cpu linearSolver=".to_string();
    line.append(options.linear_solver.to_string().as_str());
    line.append(" momentumLinearSolver=");
    line.append(options.momentum_linear_solver.to_string().as_str());
    line.append(" momentumPreconditioner=");
    line.append(options.momentum_preconditioner.to_string().as_str());
    line.append(" pressureLinearSolver=");
    line.append(options.pressure_linear_solver.to_string().as_str());
    line.append(" pressurePreconditioner=");
    line.append(options.pressure_preconditioner.to_string().as_str());
    line.append(" divPhiU=\"");
    line.append(options.schemes.div_phi_u.to_string().as_str());
    line.append("\" gradP=\"");
    line.append(options.schemes.grad_p.to_string().as_str());
    line.append("\" gradU=\"");
    line.append(options.schemes.grad_u.to_string().as_str());
    line.append("\" laplacian=\"");
    line.append(options.schemes.laplacian.to_string().as_str());
    line.append("\" snGrad=\"");
    line.append(options.schemes.sn_grad.to_string().as_str());
    line.append("\" interpolation=\"");
    line.append(options.schemes.interpolation.to_string().as_str());
    line.append("\" pRefCell=");
    line.append(layout::count_or_text(options.pressure_reference_cell, "n/a").as_str());
    line.append(" pRefValue=");
    line.append(options.pressure_reference_value.scientific.as_str());
    line.append(" nonOrthogonalCorrectors=");
    line.append(text::number_text(options.non_orthogonal_correctors).as_str());
    line.append(" consistent=");
    line.append(layout::yes_no_text(options.simple_consistent));
    line.append(" stopReason=");
    line.append(report.stop_reason.to_string().as_str());
    line.append(" cells=");
    line.append(text::number_text(report.cells).as_str());
    line.append(" faces=");
    line.append(text::number_text(report.faces).as_str());
    line.append(" simpleIterations=");
    line.append(text::number_text(report.simple_iterations).as_str());
    line.append(" minSimpleIterations=");
    line.append(text::number_text(options.min_simple_iterations).as_str());
    line.append(" converged=");
    line.append(layout::yes_no_text(report.converged));
    line.append(" residualControl=");
    line.append(simple::residual_control_state(&report.residual_control));
    line.append(" initialContinuityL2=");
    line.append(report.initial_continuity.l2_norm.scientific.as_str());
    line.append(" finalContinuityL2=");
    line.append(report.final_continuity.l2_norm.scientific.as_str());
    line.append(" momentumInitialResidual=");
    line.append(report.final_momentum_initial_normalized_residual_norm.scientific.as_str());
    line.append(" momentumFinalResidual=");
    line.append(report.final_momentum_normalized_residual_norm.scientific.as_str());
    line.append(" momentumResidualNorm=");
    line.append(report.final_momentum_residual_norm.scientific.as_str());
    line.append(" pressureInitialResidual=");
    line.append(
        report.final_pressure_correction_initial_normalized_residual_norm.scientific.as_str(),
    );
    line.append(" pressureFinalResidual=");
    line.append(report.final_pressure_correction_normalized_residual_norm.scientific.as_str());
    line.append(" pressureResidualNorm=");
    line.append(report.final_pressure_correction_residual_norm.scientific.as_str());
    line.append(" momentumLinearIterations=");
    line.append(text::number_text(report.total_momentum_linear_iterations).as_str());
    line.append(" pressureLinearIterations=");
    line.append(text::number_text(report.total_pressure_linear_iterations).as_str());
    line.append(" wallClockSeconds=");
    line.append(wall_clock);
    line
}

/// What is shown of the residuals and their limits.
pub open spec fn residual_control_summary_line(options: LaminarSimpleOptions, report: LaminarSimpleReport) -> Seq<char> {
    "laminarSimple residualControl: state="@
        + simple::residual_control_name(report.residual_control)
        + " checked="@
        + layout::yes_no(report.residual_control.checked)
        + " satisfied="@
        + layout::yes_no(report.residual_control.satisfied)
        + " U(tolerance="@
        + layout::opt_scientific(reals::opt_real(options.momentum_residual_control))
        + ",initial="@
        + report.final_momentum_initial_normalized_residual_norm.scientific@
        + ",satisfied="@
        + layout::opt_yes_no(report.residual_control.momentum_satisfied)
        + ") p(tolerance="@
        + layout::opt_scientific(reals::opt_real(options.pressure_residual_control))
        + ",initial="@
        + report.final_pressure_correction_initial_normalized_residual_norm.scientific@
        + ",satisfied="@
        + layout::opt_yes_no(report.residual_control.pressure_satisfied)
        + ")"@
}

/// What is shown of the residuals and their limits.
pub fn residual_control_summary(options: &LaminarSimpleOptions, report: &LaminarSimpleReport) -> (line: String)
    ensures
        line@ == residual_control_summary_line(*options, *report),
{
    let mut line = "laminarSimple residualControl: state=".to_string();
    line.append(simple::residual_control_state(&report.residual_control));
    line.append(" checked=");
    line.append(layout::yes_no_text(report.residual_control.checked));
    line.append(" satisfied=");
    line.append(layout::yes_no_text(report.residual_control.satisfied));
    line.append(" U(tolerance=");
    line.append(layout::opt_scientific_text(&options.momentum_residual_control).as_str());
    line.append(",initial=");
    line.append(report.final_momentum_initial_normalized_residual_norm.scientific.as_str());
    line.append(",satisfied=");
    line.append(layout::opt_yes_no_text(report.residual_control.momentum_satisfied));
    line.append(") p(tolerance=");
    line.append(layout::opt_scientific_text(&options.pressure_residual_control).as_str());
    line.append(",initial=");
    line.append(
        report.final_pressure_correction_initial_normalized_residual_norm.scientific.as_str(),
    );
    line.append(",satisfied=");
    line.append(layout::opt_yes_no_text(report.residual_control.pressure_satisfied));
    line.append(")");
    line
}

/// What is shown of the linear systems.
pub open spec fn linear_solves_summary_line(report: LaminarSimpleReport) -> Seq<char> {
    "laminarSimple linearSolves: finalMomentumConverged="@
        + layout::yes_no(report.linear_solve_summary.final_momentum_linear_converged)
        + " finalPressureConverged="@
        + layout::yes_no(report.linear_solve_summary.final_pressure_linear_converged)
        + " momentumPredictors="@
        + text::decimal(report.linear_solve_summary.momentum_predictors as nat)
        + " momentumNonConvergedPredictors="@
        + text::decimal(report.linear_solve_summary.momentum_non_converged_predictors as nat)
        + " momentumComponentSolves="@
        + text::decimal(report.linear_solve_summary.momentum_component_solves as nat)
        + " momentumComponentNonConvergedSolves="@
        + text::decimal(report.linear_solve_summary.momentum_component_non_converged_solves as nat)
        + " pressureCorrectionSolves="@
        + text::decimal(report.linear_solve_summary.pressure_correction_solves as nat)
        + " pressureCorrectionNonConvergedSolves="@
        + text::decimal(report.linear_solve_summary.pressure_correction_non_converged_solves as nat)
        + " maxMomentumIterationsPerSimple="@
        + text::decimal(
            report.linear_solve_summary.max_momentum_linear_iterations_per_simple as nat,
        )
        + " maxPressureIterationsPerSimple="@
        + text::decimal(
            report.linear_solve_summary.max_pressure_linear_iterations_per_simple as nat,
        )
        + " avgMomentumIterationsPerSimple="@
        + report.linear_solve_summary.average_momentum_linear_iterations_per_simple.scientific@
        + " avgPressureIterationsPerSimple="@
        + report.linear_solve_summary.average_pressure_linear_iterations_per_simple.scientific@
}

/// What is shown of the linear systems.
pub fn linear_solves_summary(report: &LaminarSimpleReport) -> (line: String)
    ensures
        line@ == linear_solves_summary_line(*report),
{
    let mut line = "laminarSimple linearSolves: finalMomentumConverged=".to_string();
    line.append(layout::yes_no_text(report.linear_solve_summary.final_momentum_linear_converged));
    line.append(" finalPressureConverged=");
    line.append(layout::yes_no_text(report.linear_solve_summary.final_pressure_linear_converged));
    line.append(" momentumPredictors=");
    line.append(text::number_text(report.linear_solve_summary.momentum_predictors).as_str());
    line.append(" momentumNonConvergedPredictors=");
    line.append(
        text::number_text(report.linear_solve_summary.momentum_non_converged_predictors).as_str(),
    );
    line.append(" momentumComponentSolves=");
    line.append(text::number_text(report.linear_solve_summary.momentum_component_solves).as_str());
    line.append(" momentumComponentNonConvergedSolves=");
    line.append(
        text::number_text(
            report.linear_solve_summary.momentum_component_non_converged_solves,
        ).as_str(),
    );
    line.append(" pressureCorrectionSolves=");
    line.append(text::number_text(report.linear_solve_summary.pressure_correction_solves).as_str());
    line.append(" pressureCorrectionNonConvergedSolves=");
    line.append(
        text::number_text(
            report.linear_solve_summary.pressure_correction_non_converged_solves,
        ).as_str(),
    );
    line.append(" maxMomentumIterationsPerSimple=");
    line.append(
        text::number_text(
            report.linear_solve_summary.max_momentum_linear_iterations_per_simple,
        ).as_str(),
    );
    line.append(" maxPressureIterationsPerSimple=");
    line.append(
        text::number_text(
            report.linear_solve_summary.max_pressure_linear_iterations_per_simple,
        ).as_str(),
    );
    line.append(" avgMomentumIterationsPerSimple=");
    line.append(
        report.linear_solve_summary.average_momentum_linear_iterations_per_simple.scientific.as_str(),
    );
    line.append(" avgPressureIterationsPerSimple=");
    line.append(
        report.linear_solve_summary.average_pressure_linear_iterations_per_simple.scientific.as_str(),
    );
    line
}

/// What is shown of the fields.
pub open spec fn fields_summary_line(report: LaminarSimpleReport) -> Seq<char> {
    "laminarSimple fields: velocityMinMagnitude="@
        + report.fields.velocity.min_magnitude.scientific@
        + " velocityMaxMagnitude="@
        + report.fields.velocity.max_magnitude.scientific@
        + " velocityL2="@
        + report.fields.velocity.l2_norm.scientific@
        + " velocityXMin="@
        + report.fields.velocity.x_min.scientific@
        + " velocityXMax="@
        + report.fields.velocity.x_max.scientific@
        + " velocityYMin="@
        + report.fields.velocity.y_min.scientific@
        + " velocityYMax="@
        + report.fields.velocity.y_max.scientific@
        + " velocityZMin="@
        + report.fields.velocity.z_min.scientific@
        + " velocityZMax="@
        + report.fields.velocity.z_max.scientific@
        + " pressureMin="@
        + report.fields.pressure.min.scientific@
        + " pressureMax="@
        + report.fields.pressure.max.scientific@
        + " pressureL2="@
        + report.fields.pressure.l2_norm.scientific@
}

/// What is shown of the fields.
pub fn fields_summary(report: &LaminarSimpleReport) -> (line: String)
    ensures
        line@ == fields_summary_line(*report),
{
    let mut line = "laminarSimple fields: velocityMinMagnitude=".to_string();
    line.append(report.fields.velocity.min_magnitude.scientific.as_str());
    line.append(" velocityMaxMagnitude=");
    line.append(report.fields.velocity.max_magnitude.scientific.as_str());
    line.append(" velocityL2=");
    line.append(report.fields.velocity.l2_norm.scientific.as_str());
    line.append(" velocityXMin=");
    line.append(report.fields.velocity.x_min.scientific.as_str());
    line.append(" velocityXMax=");
    line.append(report.fields.velocity.x_max.scientific.as_str());
    line.append(" velocityYMin=");
    line.append(report.fields.velocity.y_min.scientific.as_str());
    line.append(" velocityYMax=");
    line.append(report.fields.velocity.y_max.scientific.as_str());
    line.append(" velocityZMin=");
    line.append(report.fields.velocity.z_min.scientific.as_str());
    line.append(" velocityZMax=");
    line.append(report.fields.velocity.z_max.scientific.as_str());
    line.append(" pressureMin=");
    line.append(report.fields.pressure.min.scientific.as_str());
    line.append(" pressureMax=");
    line.append(report.fields.pressure.max.scientific.as_str());
    line.append(" pressureL2=");
    line.append(report.fields.pressure.l2_norm.scientific.as_str());
    line
}

/// What is shown of the operators and the boundary.
pub open spec fn operators_summary_line(report: LaminarSimpleReport) -> Seq<char> {
    "laminarSimple operators: phiMin="@
        + report.operator_summary.phi_min.scientific@
        + " phiMax="@
        + report.operator_summary.phi_max.scientific@
        + " phiSumAbs="@
        + report.operator_summary.phi_sum_abs.scientific@
        + " gradPL2="@
        + report.operator_summary.grad_p_l2_norm.scientific@
        + " hbyAL2="@
        + report.operator_summary.hby_a_l2_norm.scientific@
        + " divPhiUL2="@
        + report.operator_summary.div_phi_u_l2_norm.scientific@
        + " velocityFixedValueFaces="@
        + text::decimal(report.boundary_summary.velocity_fixed_value_faces as nat)
        + " velocityZeroGradientFaces="@
        + text::decimal(report.boundary_summary.velocity_zero_gradient_faces as nat)
        + " velocityInletOutletFaces="@
        + text::decimal(report.boundary_summary.velocity_inlet_outlet_faces as nat)
        + " pressureFixedValueFaces="@
        + text::decimal(report.boundary_summary.pressure_fixed_value_faces as nat)
        + " pressureZeroGradientFaces="@
        + text::decimal(report.boundary_summary.pressure_zero_gradient_faces as nat)
}

/// What is shown of the operators and the boundary.
pub fn operators_summary(report: &LaminarSimpleReport) -> (line: String)
    ensures
        line@ == operators_summary_line(*report),
{
    let mut line = "laminarSimple operators: phiMin=".to_string();
    line.append(report.operator_summary.phi_min.scientific.as_str());
    line.append(" phiMax=");
    line.append(report.operator_summary.phi_max.scientific.as_str());
    line.append(" phiSumAbs=");
    line.append(report.operator_summary.phi_sum_abs.scientific.as_str());
    line.append(" gradPL2=");
    line.append(report.operator_summary.grad_p_l2_norm.scientific.as_str());
    line.append(" hbyAL2=");
    line.append(report.operator_summary.hby_a_l2_norm.scientific.as_str());
    line.append(" divPhiUL2=");
    line.append(report.operator_summary.div_phi_u_l2_norm.scientific.as_str());
    line.append(" velocityFixedValueFaces=");
    line.append(text::number_text(report.boundary_summary.velocity_fixed_value_faces).as_str());
    line.append(" velocityZeroGradientFaces=");
    line.append(text::number_text(report.boundary_summary.velocity_zero_gradient_faces).as_str());
    line.append(" velocityInletOutletFaces=");
    line.append(text::number_text(report.boundary_summary.velocity_inlet_outlet_faces).as_str());
    line.append(" pressureFixedValueFaces=");
    line.append(text::number_text(report.boundary_summary.pressure_fixed_value_faces).as_str());
    line.append(" pressureZeroGradientFaces=");
    line.append(text::number_text(report.boundary_summary.pressure_zero_gradient_faces).as_str());
    line
}

/// How the residuals changed in the last iteration, as ratios.
#[derive(Debug)]
pub struct ResidualTrend {
    pub momentum: Option<Real>,
    pub pressure: Option<Real>,
    pub continuity: Option<Real>,
}

/// How many more iterations one residual seems to need.
#[derive(Debug)]
pub struct ConvergenceRatioEstimate {
    pub additional_iterations: usize,
    /// The mean decay of the residual, with four decimals.
    pub geometric_ratio: String,
}

/// How many more iterations a run seems to need, and which residual says so.
#[derive(Debug)]
pub struct SimpleIterationEstimate {
    pub primary_metric: String,
    pub additional_iterations: usize,
    pub geometric_ratio: String,
}

/// The estimate that needs the most iterations, of those with a limit; the
/// pressure decides a tie.
pub open spec fn governing(
    options: LaminarSimpleOptions,
    momentum: Option<ConvergenceRatioEstimate>,
    pressure: Option<ConvergenceRatioEstimate>,
) -> Option<(Seq<char>, usize, Seq<char>)> {
    let first = match momentum {
        Some(found) => if options.momentum_residual_control is Some && found.additional_iterations > 0 {
            Some(("momentum residual"@, found.additional_iterations, found.geometric_ratio@))
        } else {
            None
        },
        None => None,
    };
    let second = match pressure {
        Some(found) => if options.pressure_residual_control is Some && found.additional_iterations > 0 {
            Some(("pressure residual"@, found.additional_iterations, found.geometric_ratio@))
        } else {
            None
        },
        None => None,
    };
    match (first, second) {
        (Some(a), Some(b)) => if a.1 > b.1 {
            Some(a)
        } else {
            Some(b)
        },
        (Some(a), None) => Some(a),
        (None, found) => found,
    }
}

/// The estimate as far as it is shown.
pub open spec fn estimate_view(estimate: Option<SimpleIterationEstimate>) -> Option<
    (Seq<char>, usize, Seq<char>),
> {
    match estimate {
        Some(found) => Some(
            (found.primary_metric@, found.additional_iterations, found.geometric_ratio@),
        ),
        None => None,
    }
}

/// The estimate that needs the most iterations, of those with a limit; the
/// pressure decides a tie.
pub fn governing_estimate(
    options: &LaminarSimpleOptions,
    momentum: Option<ConvergenceRatioEstimate>,
    pressure: Option<ConvergenceRatioEstimate>,
) -> (estimate: Option<SimpleIterationEstimate>)
    ensures
        estimate_view(estimate) == governing(*options, momentum, pressure),
{
    let mut best: Option<SimpleIterationEstimate> = None;
    let mut most: usize = 0;
    if let Some(found) = momentum {
        if options.momentum_residual_control.is_some() && found.additional_iterations > 0 {
            most = found.additional_iterations;
            best = Some(
                SimpleIterationEstimate {
                    primary_metric: "momentum residual".to_string(),
                    additional_iterations: found.additional_iterations,
                    geometric_ratio: found.geometric_ratio,
                },
            );
        }
    }
    if let Some(found) = pressure {
        if options.pressure_residual_control.is_some() && found.additional_iterations > 0
            && found.additional_iterations >= most {
            best = Some(
                SimpleIterationEstimate {
                    primary_metric: "pressure residual".to_string(),
                    additional_iterations: found.additional_iterations,
                    geometric_ratio: found.geometric_ratio,
                },
            );
        }
    }
    best
}

/// The change in the last iteration.
pub open spec fn trend_line(previous: LaminarSimpleIterationSummary, latest: LaminarSimpleIterationSummary, change: ResidualTrend) -> Seq<char> {
    "  last-iteration trend (iter "@
        + text::decimal(previous.iteration as nat)
        + " -> "@
        + text::decimal(latest.iteration as nat)
        + "): momentum "@
        + layout::opt_scientific(reals::opt_real(change.momentum))
        + " | pressure "@
        + layout::opt_scientific(reals::opt_real(change.pressure))
        + " | continuity "@
        + layout::opt_scientific(reals::opt_real(change.continuity))
}

/// The change in the last iteration.
fn trend(previous: &LaminarSimpleIterationSummary, latest: &LaminarSimpleIterationSummary, change: &ResidualTrend) -> (line: String)
    ensures
        line@ == trend_line(*previous, *latest, *change),
{
    let mut line = "  last-iteration trend (iter ".to_string();
    line.append(text::number_text(previous.iteration).as_str());
    line.append(" -> ");
    line.append(text::number_text(latest.iteration).as_str());
    line.append("): momentum ");
    line.append(layout::opt_scientific_text(&change.momentum).as_str());
    line.append(" | pressure ");
    line.append(layout::opt_scientific_text(&change.pressure).as_str());
    line.append(" | continuity ");
    line.append(layout::opt_scientific_text(&change.continuity).as_str());
    line
}

/// The estimate after the iterations have been used up.
pub open spec fn budget_estimate_line(estimate: SimpleIterationEstimate) -> Seq<char> {
    "  trend estimate: if current geometric decay persists, add about "@
        + text::decimal(estimate.additional_iterations as nat)
        + " SIMPLE iteration(s) for convergence (targeted on "@
        + estimate.primary_metric@
        + " criterion; last ratio "@
        + estimate.geometric_ratio@
        + ")."@
}

/// The estimate after the iterations have been used up.
fn budget_estimate(estimate: &SimpleIterationEstimate) -> (line: String)
    ensures
        line@ == budget_estimate_line(*estimate),
{
    let mut line = "  trend estimate: if current geometric decay persists, add about ".to_string();
    line.append(text::number_text(estimate.additional_iterations).as_str());
    line.append(" SIMPLE iteration(s) for convergence (targeted on ");
    line.append(estimate.primary_metric.as_str());
    line.append(" criterion; last ratio ");
    line.append(estimate.geometric_ratio.as_str());
    line.append(").");
    line
}

/// The estimate where no limits were set.
pub open spec fn criterion_estimate_line(estimate: SimpleIterationEstimate) -> Seq<char> {
    "  trend estimate: if current geometric decay persists, add about "@
        + text::decimal(estimate.additional_iterations as nat)
        + " SIMPLE iteration(s) for the "@
        + estimate.primary_metric@
        + " criterion (last ratio "@
        + estimate.geometric_ratio@
        + ")."@
}

/// The estimate where no limits were set.
fn criterion_estimate(estimate: &SimpleIterationEstimate) -> (line: String)
    ensures
        line@ == criterion_estimate_line(*estimate),
{
    let mut line = "  trend estimate: if current geometric decay persists, add about ".to_string();
    line.append(text::number_text(estimate.additional_iterations).as_str());
    line.append(" SIMPLE iteration(s) for the ");
    line.append(estimate.primary_metric.as_str());
    line.append(" criterion (last ratio ");
    line.append(estimate.geometric_ratio.as_str());
    line.append(").");
    line
}

/// The advice where no limits were set.
pub open spec fn run_note_line(options: LaminarSimpleOptions) -> Seq<char> {
    "  run note: you requested --maxSimpleIterations "@
        + text::decimal(options.max_simple_iterations as nat)
        + ", if this case was still improving, increase it and keep a convergence check enabled."@
}

/// The advice where no limits were set.
fn run_note(options: &LaminarSimpleOptions) -> (line: String)
    ensures
        line@ == run_note_line(*options),
{
    let mut line = "  run note: you requested --maxSimpleIterations ".to_string();
    line.append(text::number_text(options.max_simple_iterations).as_str());
    line.append(
        ", if this case was still improving, increase it and keep a convergence check enabled.",
    );
    line
}

/// What is shown after the iterations have been used up.
pub open spec fn budget_feedback(
    report: LaminarSimpleReport,
    options: LaminarSimpleOptions,
    trend: ResidualTrend,
    estimate: Option<SimpleIterationEstimate>,
) -> Seq<Seq<char>> {
    let n = report.history@.len();
    let budget = if options.max_simple_iterations == report.simple_iterations {
        "iteration budget reached ("@ + text::decimal(options.max_simple_iterations as nat) + ")"@
    } else {
        "iteration budget stopped"@
    };
    let lines = Seq::empty()
        .push("laminarSimple convergence note: "@ + budget + "."@)
        .push(
        if n >= 2 {
            trend_line(report.history@[n - 2], report.history@[n - 1], trend)
        } else {
            "  last-iteration trend: not enough samples"@
        },
    ).push(
        "  suggestion: if the initial residuals are still decreasing, increase the controlDict endTime or --maxSimpleIterations budget."@,
    );
    match estimate {
        Some(found) => lines.push(budget_estimate_line(found)),
        None => lines,
    }
}

/// What is shown where no limits were set.
pub open spec fn criteria_feedback(
    report: LaminarSimpleReport,
    options: LaminarSimpleOptions,
    estimate: Option<SimpleIterationEstimate>,
) -> Seq<Seq<char>> {
    let n = report.history@.len();
    let head: Seq<Seq<char>> = if report.simple_iterations > 0 && n > 0 {
        let last = report.history@[n - 1];
        Seq::empty()
            .push(
            "  final SIMPLE-iteration initial residual U="@
                + last.momentum_initial_normalized_residual_norm.scientific@,
        ).push(
            "  final SIMPLE-iteration initial residual p="@
                + last.pressure_correction_initial_normalized_residual_norm.scientific@,
        )
    } else {
        Seq::empty()
    };
    let lines = head.push(
        "laminarSimple convergence note: no active convergence criteria (no residualControl in fvSolution)."@,
    ).push(
        "  to stop early, set SIMPLE.residualControl U/p in system/fvSolution. Benchmark acceptance is evaluated externally."@,
    );
    let noted = if options.max_simple_iterations > 1 {
        lines.push(run_note_line(options))
    } else {
        lines
    };
    match estimate {
        Some(found) => noted.push(criterion_estimate_line(found)),
        None => noted,
    }
}

/// What is shown of a run that did not converge.
pub open spec fn feedback_lines(
    report: LaminarSimpleReport,
    options: LaminarSimpleOptions,
    trend: ResidualTrend,
    estimate: Option<SimpleIterationEstimate>,
) -> Seq<Seq<char>> {
    if report.converged {
        Seq::empty()
    } else {
        match report.stop_reason {
            LaminarSimpleStopReason::MaxIterationsReached => budget_feedback(
                report,
                options,
                trend,
                estimate,
            ),
            LaminarSimpleStopReason::ConvergenceCriteriaNotConfigured => criteria_feedback(
                report,
                options,
                estimate,
            ),
            LaminarSimpleStopReason::MomentumSolverInvalidState => Seq::empty().push(
                "laminarSimple convergence note: momentum equation linear solve entered invalid state."@,
            ),
            LaminarSimpleStopReason::PressureSolverInvalidState => Seq::empty().push(
                "laminarSimple convergence note: pressure equation linear solve entered invalid state."@,
            ),
            LaminarSimpleStopReason::SolverInvalidState => Seq::empty().push(
                "laminarSimple convergence note: solver encountered a non-finite field/state."@,
            ),
            LaminarSimpleStopReason::Converged => Seq::empty(),
        }
    }
}

fn budget_lines(
    report: &LaminarSimpleReport,
    options: &LaminarSimpleOptions,
    change: &ResidualTrend,
    estimate: &Option<SimpleIterationEstimate>,
) -> (lines: TextList)
    ensures
        lines@ == budget_feedback(*report, *options, *change, *estimate),
{
    let mut lines = TextList::new();
    let mut note = "laminarSimple convergence note: ".to_string();
    if options.max_simple_iterations == report.simple_iterations {
        let mut budget = "iteration budget reached (".to_string();
        budget.append(text::number_text(options.max_simple_iterations).as_str());
        budget.append(")");
        note.append(budget.as_str());
    } else {
        note.append("iteration budget stopped");
    }
    note.append(".");
    lines.push(note);
    let n: usize = report.history.len();
    if n >= 2 {
        lines.push(trend(&report.history[n - 2], &report.history[n - 1], change));
    } else {
        lines.add("  last-iteration trend: not enough samples");
    }
    lines.add(
        "  suggestion: if the initial residuals are still decreasing, increase the controlDict endTime or --maxSimpleIterations budget.",
    );
    if let Some(found) = estimate {
        lines.push(budget_estimate(found));
    }
    lines
}

fn criteria_lines(
    report: &LaminarSimpleReport,
    options: &LaminarSimpleOptions,
    estimate: &Option<SimpleIterationEstimate>,
) -> (lines: TextList)
    ensures
        lines@ == criteria_feedback(*report, *options, *estimate),
{
    let mut lines = TextList::new();
    let n: usize = report.history.len();
    if report.simple_iterations > 0 && n > 0 {
        let last = &report.history[n - 1];
        let mut momentum = "  final SIMPLE-iteration initial residual U=".to_string();
        momentum.append(last.momentum_initial_normalized_residual_norm.scientific.as_str());
        lines.push(momentum);
        let mut pressure = "  final SIMPLE-iteration initial residual p=".to_string();
        pressure.append(
            last.pressure_correction_initial_normalized_residual_norm.scientific.as_str(),
        );
        lines.push(pressure);
    }
    lines.add(
        "laminarSimple convergence note: no active convergence criteria (no residualControl in fvSolution).",
    );
    lines.add(
        "  to stop early, set SIMPLE.residualControl U/p in system/fvSolution. Benchmark acceptance is evaluated externally.",
    );
    if options.max_simple_iterations > 1 {
        lines.push(run_note(options));
    }
    if let Some(found) = estimate {
        lines.push(criterion_estimate(found));
    }
    lines
}

/// What is shown of a run that did not converge.
pub fn convergence_feedback(
    report: &LaminarSimpleReport,
    options: &LaminarSimpleOptions,
    change: &ResidualTrend,
    estimate: &Option<SimpleIterationEstimate>,
) -> (lines: TextList)
    ensures
        lines@ == feedback_lines(*report, *options, *change, *estimate),
{
    let mut lines = TextList::new();
    if report.converged {
        return lines;
    }
    match report.stop_reason {
        LaminarSimpleStopReason::MaxIterationsReached => {
            return budget_lines(report, options, change, estimate);
        },
        LaminarSimpleStopReason::ConvergenceCriteriaNotConfigured => {
            return criteria_lines(report, options, estimate);
        },
        LaminarSimpleStopReason::MomentumSolverInvalidState => {
            lines.add(
                "laminarSimple convergence note: momentum equation linear solve entered invalid state.",
            );
        },
        LaminarSimpleStopReason::PressureSolverInvalidState => {
            lines.add(
                "laminarSimple convergence note: pressure equation linear solve entered invalid state.",
            );
        },
        LaminarSimpleStopReason::SolverInvalidState => {
            lines.add(
                "laminarSimple convergence note: solver encountered a non-finite field/state.",
            );
        },
        LaminarSimpleStopReason::Converged => {},
    }
    lines
}

/// The estimate of a run needs at least as many iterations as that of each residual
/// that has a limit and is not yet below it; it is one of the two, and missing exactly
/// where neither has a limit and iterations to go.
pub proof fn slowest_residual_governs(
    options: LaminarSimpleOptions,
    momentum: Option<ConvergenceRatioEstimate>,
    pressure: Option<ConvergenceRatioEstimate>,
)
    ensures
        ({
            let first = options.momentum_residual_control is Some && momentum is Some
                && momentum->0.additional_iterations > 0;
            let second = options.pressure_residual_control is Some && pressure is Some
                && pressure->0.additional_iterations > 0;
            match governing(options, momentum, pressure) {
                None => !first && !second,
                Some((metric, iterations, ratio)) => {
                    &&& first ==> iterations >= momentum->0.additional_iterations
                    &&& second ==> iterations >= pressure->0.additional_iterations
                    &&& (first && metric == "momentum residual"@ && iterations
                        == momentum->0.additional_iterations && ratio
                        == momentum->0.geometric_ratio@) || (second && metric
                        == "pressure residual"@ && iterations == pressure->0.additional_iterations
                        && ratio == pressure->0.geometric_ratio@)
                },
            }
        }),
{
}

/// A run that converged is told no reason why it did not.
pub proof fn converged_run_needs_no_feedback(
    report: LaminarSimpleReport,
    options: LaminarSimpleOptions,
    trend: ResidualTrend,
    estimate: Option<SimpleIterationEstimate>,
)
    requires
        report.converged,
    ensures
        feedback_lines(report, options, trend, estimate).len() == 0,
{
}

} // verus!
