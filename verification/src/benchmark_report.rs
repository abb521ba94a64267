//! The reports of the benchmarks, and what is shown of the flow through a
//! pipe.

use crate::benchmark_args::{PipeBenchmarkArgs, PlaneChannelBenchmarkArgs};
use crate::json;
use crate::json::JsonObject;
use crate::layout;
use crate::layout::TextList;
use crate::poiseuille;
use crate::poiseuille::{
    LaminarPipeBenchmarkSummary, LaminarPlaneChannelBenchmarkSummary, PoiseuilleOptions,
};
use crate::reals::Real;
use crate::solver_args;
use crate::solver_args::ScalarDiffusionLinearSolver;
use crate::text;
use vstd::prelude::*;

verus! {

/// The pipe of the JSON report.
pub open spec fn pipe_inputs_json(args: PipeBenchmarkArgs) -> Seq<char> {
    json::object(
        2,
        Seq::empty()
            .push(("pressureDrop"@, json::number(args.options.pressure_drop@)))
            .push(("dynamicViscosity"@, json::number(args.options.dynamic_viscosity@)))
            .push(("length"@, json::number(args.options.length@)))
            .push(("diameter"@, json::number(args.options.diameter@)))
            .push(("inletPatch"@, json::string(args.options.inlet_patch@)))
            .push(("outletPatch"@, json::string(args.options.outlet_patch@)))
            .push(("axis"@, json::string(poiseuille::axis_name(args.options.axis)))),
    )
}

fn pipe_inputs_text(args: &PipeBenchmarkArgs) -> (out: String)
    ensures
        out@ == pipe_inputs_json(*args),
{
    let mut object = JsonObject::new();
    object.number("pressureDrop", &args.options.pressure_drop);
    object.number("dynamicViscosity", &args.options.dynamic_viscosity);
    object.number("length", &args.options.length);
    object.number("diameter", &args.options.diameter);
    object.string("inletPatch", args.options.inlet_patch.as_str());
    object.string("outletPatch", args.options.outlet_patch.as_str());
    object.put("axis", json::string_text(poiseuille::pipe_axis_name(args.options.axis)));
    object.render(2)
}

/// The comparison of the JSON report on a pipe.
pub open spec fn pipe_summary_json(summary: LaminarPipeBenchmarkSummary) -> Seq<char> {
    json::object(
        2,
        Seq::empty()
            .push(("minVelocity"@, json::number(summary.min_velocity@)))
            .push(("maxVelocity"@, json::number(summary.max_velocity@)))
            .push(("meanVelocity"@, json::number(summary.mean_velocity@)))
            .push(("flowRate"@, json::number(summary.flow_rate@)))
            .push(("analyticMeanVelocity"@, json::number(summary.analytic_mean_velocity@)))
            .push(("analyticFlowRate"@, json::number(summary.analytic_flow_rate@)))
            .push(("pressureDropFromMean"@, json::number(summary.pressure_drop_from_mean@)))
            .push(
                (
                    "pressureDropFromOwnerCells"@,
                    json::number(summary.pressure_drop_from_owner_cells@),
                ),
            )
            .push(
                ("relativeMeanVelocityError"@, json::number(summary.relative_mean_velocity_error@)),
            )
            .push(
                (
                    "relativePressureDropFromMeanError"@,
                    json::number(summary.relative_pressure_drop_from_mean_error@),
                ),
            )
            .push(
                (
                    "relativePressureDropFromOwnerCellsError"@,
                    json::number(summary.relative_pressure_drop_from_owner_cells_error@),
                ),
            ),
    )
}

fn pipe_summary_text(summary: &LaminarPipeBenchmarkSummary) -> (out: String)
    ensures
        out@ == pipe_summary_json(*summary),
{
    let mut object = JsonObject::new();
    object.number("minVelocity", &summary.min_velocity);
    object.number("maxVelocity", &summary.max_velocity);
    object.number("meanVelocity", &summary.mean_velocity);
    object.number("flowRate", &summary.flow_rate);
    object.number("analyticMeanVelocity", &summary.analytic_mean_velocity);
    object.number("analyticFlowRate", &summary.analytic_flow_rate);
    object.number("pressureDropFromMean", &summary.pressure_drop_from_mean);
    object.number("pressureDropFromOwnerCells", &summary.pressure_drop_from_owner_cells);
    object.number("relativeMeanVelocityError", &summary.relative_mean_velocity_error);
    object.number(
        "relativePressureDropFromMeanError",
        &summary.relative_pressure_drop_from_mean_error,
    );
    object.number(
        "relativePressureDropFromOwnerCellsError",
        &summary.relative_pressure_drop_from_owner_cells_error,
    );
    object.render(2)
}

/// The channel of the JSON report.
pub open spec fn channel_inputs_json(args: PlaneChannelBenchmarkArgs) -> Seq<char> {
    json::object(
        2,
        Seq::empty()
            .push(("pressureDrop"@, json::number(args.options.pressure_drop@)))
            .push(("dynamicViscosity"@, json::number(args.options.dynamic_viscosity@)))
            .push(("length"@, json::number(args.options.length@)))
            .push(("gap"@, json::number(args.options.gap@)))
            .push(("depth"@, json::number(args.options.depth@)))
            .push(("pressureScale"@, json::number(args.pressure_scale@)))
            .push(("inletPatch"@, json::string(args.options.inlet_patch@)))
            .push(("outletPatch"@, json::string(args.options.outlet_patch@)))
            .push(("axis"@, json::string(poiseuille::axis_name(args.options.axis)))),
    )
}

fn channel_inputs_text(args: &PlaneChannelBenchmarkArgs) -> (out: String)
    ensures
        out@ == channel_inputs_json(*args),
{
    let mut object = JsonObject::new();
    object.number("pressureDrop", &args.options.pressure_drop);
    object.number("dynamicViscosity", &args.options.dynamic_viscosity);
    object.number("length", &args.options.length);
    object.number("gap", &args.options.gap);
    object.number("depth", &args.options.depth);
    object.number("pressureScale", &args.pressure_scale);
    object.string("inletPatch", args.options.inlet_patch.as_str());
    object.string("outletPatch", args.options.outlet_patch.as_str());
    object.put("axis", json::string_text(poiseuille::pipe_axis_name(args.options.axis)));
    object.render(2)
}

/// The comparison of the JSON report on a channel.
pub open spec fn channel_summary_json(summary: LaminarPlaneChannelBenchmarkSummary) -> Seq<char> {
    json::object(
        2,
        Seq::empty()
            .push(("minVelocity"@, json::number(summary.min_velocity@)))
            .push(("maxVelocity"@, json::number(summary.max_velocity@)))
            .push(("meanVelocity"@, json::number(summary.mean_velocity@)))
            .push(("flowRate"@, json::number(summary.flow_rate@)))
            .push(("flowRatePerUnitDepth"@, json::number(summary.flow_rate_per_unit_depth@)))
            .push(("analyticMeanVelocity"@, json::number(summary.analytic_mean_velocity@)))
            .push(("analyticFlowRate"@, json::number(summary.analytic_flow_rate@)))
            .push(
                (
                    "analyticFlowRatePerUnitDepth"@,
                    json::number(summary.analytic_flow_rate_per_unit_depth@),
                ),
            )
            .push(("pressureDropFromMean"@, json::number(summary.pressure_drop_from_mean@)))
            .push(
                (
                    "pressureDropFromOwnerCells"@,
                    json::number(summary.pressure_drop_from_owner_cells@),
                ),
            )
            .push(
                ("relativeMeanVelocityError"@, json::number(summary.relative_mean_velocity_error@)),
            )
            .push(
                (
                    "relativePressureDropFromMeanError"@,
                    json::number(summary.relative_pressure_drop_from_mean_error@),
                ),
            )
            .push(
                (
                    "relativePressureDropFromOwnerCellsError"@,
                    json::number(summary.relative_pressure_drop_from_owner_cells_error@),
                ),
            ),
    )
}

fn channel_summary_text(summary: &LaminarPlaneChannelBenchmarkSummary) -> (out: String)
    ensures
        out@ == channel_summary_json(*summary),
{
    let mut object = JsonObject::new();
    object.number("minVelocity", &summary.min_velocity);
    object.number("maxVelocity", &summary.max_velocity);
    object.number("meanVelocity", &summary.mean_velocity);
    object.number("flowRate", &summary.flow_rate);
    object.number("flowRatePerUnitDepth", &summary.flow_rate_per_unit_depth);
    object.number("analyticMeanVelocity", &summary.analytic_mean_velocity);
    object.number("analyticFlowRate", &summary.analytic_flow_rate);
    object.number("analyticFlowRatePerUnitDepth", &summary.analytic_flow_rate_per_unit_depth);
    object.number("pressureDropFromMean", &summary.pressure_drop_from_mean);
    object.number("pressureDropFromOwnerCells", &summary.pressure_drop_from_owner_cells);
    object.number("relativeMeanVelocityError", &summary.relative_mean_velocity_error);
    object.number(
        "relativePressureDropFromMeanError",
        &summary.relative_pressure_drop_from_mean_error,
    );
    object.number(
        "relativePressureDropFromOwnerCellsError",
        &summary.relative_pressure_drop_from_owner_cells_error,
    );
    object.render(2)
}

/// The JSON report on a pipe.
pub open spec fn pipe_json(args: PipeBenchmarkArgs, summary: LaminarPipeBenchmarkSummary) -> Seq<char> {
    json::object(
        0,
        Seq::empty()
            .push(("benchmark"@, json::string("laminarPipeHagenPoiseuille"@)))
            .push(("caseDir"@, json::string(args.case_dir@)))
            .push(("fieldsDir"@, json::string(args.fields_dir@)))
            .push(("inputs"@, pipe_inputs_json(args)))
            .push(("solution"@, pipe_summary_json(summary))),
    ) + "\n"@
}

/// The JSON report on a pipe.
pub fn pipe_benchmark_json(args: &PipeBenchmarkArgs, summary: &LaminarPipeBenchmarkSummary) -> (out: String)
    ensures
        out@ == pipe_json(*args, *summary),
{
    let mut object = JsonObject::new();
    object.string("benchmark", "laminarPipeHagenPoiseuille");
    object.string("caseDir", args.case_dir.as_str());
    object.string("fieldsDir", args.fields_dir.as_str());
    object.put("inputs", pipe_inputs_text(args));
    object.put("solution", pipe_summary_text(summary));
    let mut out = object.render(0);
    out.append("\n");
    out
}

/// The JSON report on a channel.
pub open spec fn channel_json(args: PlaneChannelBenchmarkArgs, summary: LaminarPlaneChannelBenchmarkSummary) -> Seq<char> {
    json::object(
        0,
        Seq::empty()
            .push(("benchmark"@, json::string("laminarPlanePoiseuille"@)))
            .push(("caseDir"@, json::string(args.case_dir@)))
            .push(("fieldsDir"@, json::string(args.fields_dir@)))
            .push(("inputs"@, channel_inputs_json(args)))
            .push(("solution"@, channel_summary_json(summary))),
    ) + "\n"@
}

/// The JSON report on a channel.
pub fn channel_benchmark_json(args: &PlaneChannelBenchmarkArgs, summary: &LaminarPlaneChannelBenchmarkSummary) -> (out: String)
    ensures
        out@ == channel_json(*args, *summary),
{
    let mut object = JsonObject::new();
    object.string("benchmark", "laminarPlanePoiseuille");
    object.string("caseDir", args.case_dir.as_str());
    object.string("fieldsDir", args.fields_dir.as_str());
    object.put("inputs", channel_inputs_text(args));
    object.put("solution", channel_summary_text(summary));
    let mut out = object.render(0);
    out.append("\n");
    out
}

fn quoted(head: &str, inner: &str) -> (line: String)
    ensures
        line@ == head@ + inner@ + "`"@,
{
    let mut line = head.to_string();
    line.append(inner);
    line.append("`");
    line
}

/// The lines of the Markdown report on a pipe.
pub open spec fn pipe_markdown_lines(args: PipeBenchmarkArgs, summary: LaminarPipeBenchmarkSummary) -> Seq<Seq<char>> {
    Seq::empty()
        .push("# Laminar Pipe Benchmark"@)
        .push(Seq::empty())
        .push("Case: `"@ + args.case_dir@ + "`"@)
        .push("Fields: `"@ + args.fields_dir@ + "`"@)
        .push(Seq::empty())
        .push("| Quantity | Value |"@)
        .push("| --- | ---: |"@)
        .push(layout::named_row("Axis"@, poiseuille::axis_name(args.options.axis)))
        .push(layout::named_row("Analytic deltaP [Pa]"@, args.options.pressure_drop.scientific@))
        .push(layout::named_row("Mean velocity [m/s]"@, summary.mean_velocity.scientific@))
        .push(
            layout::named_row(
                "Analytic mean velocity [m/s]"@,
                summary.analytic_mean_velocity.scientific@,
            ),
        )
        .push(
            layout::named_row(
                "Mean velocity error"@,
                summary.relative_mean_velocity_error.percent@,
            ),
        )
        .push(
            layout::named_row(
                "DeltaP from mean velocity [Pa]"@,
                summary.pressure_drop_from_mean.scientific@,
            ),
        )
        .push(
            layout::named_row(
                "DeltaP from owner cells [Pa]"@,
                summary.pressure_drop_from_owner_cells.scientific@,
            ),
        )
        .push(
            layout::named_row(
                "Owner-cell deltaP error"@,
                summary.relative_pressure_drop_from_owner_cells_error.percent@,
            ),
        )
}

fn pipe_markdown(args: &PipeBenchmarkArgs, summary: &LaminarPipeBenchmarkSummary) -> (lines: TextList)
    ensures
        lines@ == pipe_markdown_lines(*args, *summary),
{
    let mut lines = TextList::new();
    lines.add("# Laminar Pipe Benchmark");
    lines.blank();
    lines.push(quoted("Case: `", args.case_dir.as_str()));
    lines.push(quoted("Fields: `", args.fields_dir.as_str()));
    lines.blank();
    lines.add("| Quantity | Value |");
    lines.add("| --- | ---: |");
    lines.named("Axis", poiseuille::pipe_axis_name(args.options.axis));
    lines.named("Analytic deltaP [Pa]", args.options.pressure_drop.scientific.as_str());
    lines.named("Mean velocity [m/s]", summary.mean_velocity.scientific.as_str());
    lines.named("Analytic mean velocity [m/s]", summary.analytic_mean_velocity.scientific.as_str());
    lines.named("Mean velocity error", summary.relative_mean_velocity_error.percent.as_str());
    lines.named(
        "DeltaP from mean velocity [Pa]",
        summary.pressure_drop_from_mean.scientific.as_str(),
    );
    lines.named(
        "DeltaP from owner cells [Pa]",
        summary.pressure_drop_from_owner_cells.scientific.as_str(),
    );
    lines.named(
        "Owner-cell deltaP error",
        summary.relative_pressure_drop_from_owner_cells_error.percent.as_str(),
    );
    lines
}

/// The Markdown report on a pipe.
pub fn pipe_benchmark_markdown(args: &PipeBenchmarkArgs, summary: &LaminarPipeBenchmarkSummary) -> (out: String)
    ensures
        out@ == layout::lines_text(pipe_markdown_lines(*args, *summary)),
{
    pipe_markdown(args, summary).as_lines()
}

/// The lines of the Markdown report on a channel.
pub open spec fn channel_markdown_lines(args: PlaneChannelBenchmarkArgs, summary: LaminarPlaneChannelBenchmarkSummary) -> Seq<Seq<char>> {
    Seq::empty()
        .push("# Laminar Plane-Channel Benchmark"@)
        .push(Seq::empty())
        .push("Case: `"@ + args.case_dir@ + "`"@)
        .push("Fields: `"@ + args.fields_dir@ + "`"@)
        .push(Seq::empty())
        .push("| Quantity | Value |"@)
        .push("| --- | ---: |"@)
        .push(layout::named_row("Axis"@, poiseuille::axis_name(args.options.axis)))
        .push(layout::named_row("Analytic deltaP [Pa]"@, args.options.pressure_drop.scientific@))
        .push(layout::named_row("Mean velocity [m/s]"@, summary.mean_velocity.scientific@))
        .push(
            layout::named_row(
                "Analytic mean velocity [m/s]"@,
                summary.analytic_mean_velocity.scientific@,
            ),
        )
        .push(
            layout::named_row(
                "Mean velocity error"@,
                summary.relative_mean_velocity_error.percent@,
            ),
        )
        .push(
            layout::named_row(
                "DeltaP from mean velocity [Pa]"@,
                summary.pressure_drop_from_mean.scientific@,
            ),
        )
        .push(
            layout::named_row(
                "DeltaP from mean velocity error"@,
                summary.relative_pressure_drop_from_mean_error.percent@,
            ),
        )
        .push(
            layout::named_row(
                "DeltaP from owner cells [Pa]"@,
                summary.pressure_drop_from_owner_cells.scientific@,
            ),
        )
        .push(
            layout::named_row(
                "Owner-cell deltaP error"@,
                summary.relative_pressure_drop_from_owner_cells_error.percent@,
            ),
        )
        .push(
            layout::named_row(
                "Flow rate per unit depth [m2/s]"@,
                summary.flow_rate_per_unit_depth.scientific@,
            ),
        )
}

fn channel_markdown(args: &PlaneChannelBenchmarkArgs, summary: &LaminarPlaneChannelBenchmarkSummary) -> (lines: TextList)
    ensures
        lines@ == channel_markdown_lines(*args, *summary),
{
    let mut lines = TextList::new();
    lines.add("# Laminar Plane-Channel Benchmark");
    lines.blank();
    lines.push(quoted("Case: `", args.case_dir.as_str()));
    lines.push(quoted("Fields: `", args.fields_dir.as_str()));
    lines.blank();
    lines.add("| Quantity | Value |");
    lines.add("| --- | ---: |");
    lines.named("Axis", poiseuille::pipe_axis_name(args.options.axis));
    lines.named("Analytic deltaP [Pa]", args.options.pressure_drop.scientific.as_str());
    lines.named("Mean velocity [m/s]", summary.mean_velocity.scientific.as_str());
    lines.named("Analytic mean velocity [m/s]", summary.analytic_mean_velocity.scientific.as_str());
    lines.named("Mean velocity error", summary.relative_mean_velocity_error.percent.as_str());
    lines.named(
        "DeltaP from mean velocity [Pa]",
        summary.pressure_drop_from_mean.scientific.as_str(),
    );
    lines.named(
        "DeltaP from mean velocity error",
        summary.relative_pressure_drop_from_mean_error.percent.as_str(),
    );
    lines.named(
        "DeltaP from owner cells [Pa]",
        summary.pressure_drop_from_owner_cells.scientific.as_str(),
    );
    lines.named(
        "Owner-cell deltaP error",
        summary.relative_pressure_drop_from_owner_cells_error.percent.as_str(),
    );
    lines.named(
        "Flow rate per unit depth [m2/s]",
        summary.flow_rate_per_unit_depth.scientific.as_str(),
    );
    lines
}

/// The Markdown report on a channel.
pub fn channel_benchmark_markdown(args: &PlaneChannelBenchmarkArgs, summary: &LaminarPlaneChannelBenchmarkSummary) -> (out: String)
    ensures
        out@ == layout::lines_text(channel_markdown_lines(*args, *summary)),
{
    channel_markdown(args, summary).as_lines()
}

/// What is shown of a pipe.
pub open spec fn pipe_result_line(summary: LaminarPipeBenchmarkSummary) -> Seq<char> {
    "pipeBenchmark result: meanVelocity="@
        + summary.mean_velocity.scientific@
        + " analyticMeanVelocity="@
        + summary.analytic_mean_velocity.scientific@
        + " relativeMeanVelocityError="@
        + summary.relative_mean_velocity_error.scientific@
        + " flowRate="@
        + summary.flow_rate.scientific@
        + " analyticFlowRate="@
        + summary.analytic_flow_rate.scientific@
        + " pressureDropFromMean="@
        + summary.pressure_drop_from_mean.scientific@
        + " relativePressureDropFromMeanError="@
        + summary.relative_pressure_drop_from_mean_error.scientific@
        + " pressureDropFromOwnerCells="@
        + summary.pressure_drop_from_owner_cells.scientific@
        + " relativePressureDropFromOwnerCellsError="@
        + summary.relative_pressure_drop_from_owner_cells_error.scientific@
        + " minVelocity="@
        + summary.min_velocity.scientific@
        + " maxVelocity="@
        + summary.max_velocity.scientific@
}

/// What is shown of a pipe.
pub fn pipe_result(summary: &LaminarPipeBenchmarkSummary) -> (line: String)
    ensures
        line@ == pipe_result_line(*summary),
{
    let mut line = "pipeBenchmark result: meanVelocity=".to_string();
    line.append(summary.mean_velocity.scientific.as_str());
    line.append(" analyticMeanVelocity=");
    line.append(summary.analytic_mean_velocity.scientific.as_str());
    line.append(" relativeMeanVelocityError=");
    line.append(summary.relative_mean_velocity_error.scientific.as_str());
    line.append(" flowRate=");
    line.append(summary.flow_rate.scientific.as_str());
    line.append(" analyticFlowRate=");
    line.append(summary.analytic_flow_rate.scientific.as_str());
    line.append(" pressureDropFromMean=");
    line.append(summary.pressure_drop_from_mean.scientific.as_str());
    line.append(" relativePressureDropFromMeanError=");
    line.append(summary.relative_pressure_drop_from_mean_error.scientific.as_str());
    line.append(" pressureDropFromOwnerCells=");
    line.append(summary.pressure_drop_from_owner_cells.scientific.as_str());
    line.append(" relativePressureDropFromOwnerCellsError=");
    line.append(summary.relative_pressure_drop_from_owner_cells_error.scientific.as_str());
    line.append(" minVelocity=");
    line.append(summary.min_velocity.scientific.as_str());
    line.append(" maxVelocity=");
    line.append(summary.max_velocity.scientific.as_str());
    line
}

/// What is shown of a channel.
pub open spec fn channel_result_line(summary: LaminarPlaneChannelBenchmarkSummary) -> Seq<char> {
    "planeChannelBenchmark result: meanVelocity="@
        + summary.mean_velocity.scientific@
        + " analyticMeanVelocity="@
        + summary.analytic_mean_velocity.scientific@
        + " relativeMeanVelocityError="@
        + summary.relative_mean_velocity_error.scientific@
        + " flowRate="@
        + summary.flow_rate.scientific@
        + " flowRatePerUnitDepth="@
        + summary.flow_rate_per_unit_depth.scientific@
        + " pressureDropFromMean="@
        + summary.pressure_drop_from_mean.scientific@
        + " relativePressureDropFromMeanError="@
        + summary.relative_pressure_drop_from_mean_error.scientific@
        + " pressureDropFromOwnerCells="@
        + summary.pressure_drop_from_owner_cells.scientific@
        + " relativePressureDropFromOwnerCellsError="@
        + summary.relative_pressure_drop_from_owner_cells_error.scientific@
        + " minVelocity="@
        + summary.min_velocity.scientific@
        + " maxVelocity="@
        + summary.max_velocity.scientific@
}

/// What is shown of a channel.
pub fn channel_result(summary: &LaminarPlaneChannelBenchmarkSummary) -> (line: String)
    ensures
        line@ == channel_result_line(*summary),
{
    let mut line = "planeChannelBenchmark result: meanVelocity=".to_string();
    line.append(summary.mean_velocity.scientific.as_str());
    line.append(" analyticMeanVelocity=");
    line.append(summary.analytic_mean_velocity.scientific.as_str());
    line.append(" relativeMeanVelocityError=");
    line.append(summary.relative_mean_velocity_error.scientific.as_str());
    line.append(" flowRate=");
    line.append(summary.flow_rate.scientific.as_str());
    line.append(" flowRatePerUnitDepth=");
    line.append(summary.flow_rate_per_unit_depth.scientific.as_str());
    line.append(" pressureDropFromMean=");
    line.append(summary.pressure_drop_from_mean.scientific.as_str());
    line.append(" relativePressureDropFromMeanError=");
    line.append(summary.relative_pressure_drop_from_mean_error.scientific.as_str());
    line.append(" pressureDropFromOwnerCells=");
    line.append(summary.pressure_drop_from_owner_cells.scientific.as_str());
    line.append(" relativePressureDropFromOwnerCellsError=");
    line.append(summary.relative_pressure_drop_from_owner_cells_error.scientific.as_str());
    line.append(" minVelocity=");
    line.append(summary.min_velocity.scientific.as_str());
    line.append(" maxVelocity=");
    line.append(summary.max_velocity.scientific.as_str());
    line
}

/// The flow through a pipe as it was solved.
#[derive(Debug)]
pub struct PoiseuilleSolveReport {
    pub linear_solver: ScalarDiffusionLinearSolver,
    pub cells: usize,
    pub nonzeros: usize,
    pub source: Real,
    pub iterations: usize,
    pub converged: bool,
    pub residual_norm: Real,
    /// The time that it took, with six decimals.
    pub wall_clock: String,
}

/// How the flow through a pipe compares with the known solution.
#[derive(Debug)]
pub struct PoiseuilleSolutionSummary {
    pub min_velocity: Real,
    pub max_velocity: Real,
    pub mean_velocity: Real,
    pub flow_rate: Real,
    pub analytic_mean_velocity: Real,
    pub analytic_flow_rate: Real,
    pub pressure_drop_from_mean: Real,
    pub mean_velocity_error: Real,
    pub relative_mean_velocity_error: Real,
}

/// What is shown of the flow through a pipe.
pub open spec fn poiseuille_solve_line(options: PoiseuilleOptions, report: PoiseuilleSolveReport) -> Seq<char> {
    "poiseuille solve: backend=cpu linearSolver="@
        + solver_args::scalar_solver_name(report.linear_solver)
        + " cells="@
        + text::decimal(report.cells as nat)
        + " nnz="@
        + text::decimal(report.nonzeros as nat)
        + " pressureDrop="@
        + options.pressure_drop.scientific@
        + " dynamicViscosity="@
        + options.dynamic_viscosity.scientific@
        + " length="@
        + options.length.scientific@
        + " diameter="@
        + options.diameter.scientific@
        + " source="@
        + report.source.scientific@
        + " wallPatches="@
        + text::join(text::texts(options.wall_patches@), ","@)
        + " iterations="@
        + text::decimal(report.iterations as nat)
        + " converged="@
        + layout::yes_no(report.converged)
        + " residualNorm="@
        + report.residual_norm.scientific@
        + " wallClockSeconds="@
        + report.wall_clock@
}

/// What is shown of the flow through a pipe.
pub fn poiseuille_solve(options: &PoiseuilleOptions, report: &PoiseuilleSolveReport) -> (line: String)
    ensures
        line@ == poiseuille_solve_line(*options, *report),
{
    let mut line = "poiseuille solve: backend=cpu linearSolver=".to_string();
    line.append(report.linear_solver.to_string().as_str());
    line.append(" cells=");
    line.append(text::number_text(report.cells).as_str());
    line.append(" nnz=");
    line.append(text::number_text(report.nonzeros).as_str());
    line.append(" pressureDrop=");
    line.append(options.pressure_drop.scientific.as_str());
    line.append(" dynamicViscosity=");
    line.append(options.dynamic_viscosity.scientific.as_str());
    line.append(" length=");
    line.append(options.length.scientific.as_str());
    line.append(" diameter=");
    line.append(options.diameter.scientific.as_str());
    line.append(" source=");
    line.append(report.source.scientific.as_str());
    line.append(" wallPatches=");
    line.append(text::joined(&options.wall_patches, ",").as_str());
    line.append(" iterations=");
    line.append(text::number_text(report.iterations).as_str());
    line.append(" converged=");
    line.append(layout::yes_no_text(report.converged));
    line.append(" residualNorm=");
    line.append(report.residual_norm.scientific.as_str());
    line.append(" wallClockSeconds=");
    line.append(report.wall_clock.as_str());
    line
}

/// What is shown of the solution.
pub open spec fn poiseuille_result_line(summary: PoiseuilleSolutionSummary) -> Seq<char> {
    "poiseuille result: meanVelocity="@
        + summary.mean_velocity.scientific@
        + " analyticMeanVelocity="@
        + summary.analytic_mean_velocity.scientific@
        + " relativeMeanVelocityError="@
        + summary.relative_mean_velocity_error.scientific@
        + " flowRate="@
        + summary.flow_rate.scientific@
        + " analyticFlowRate="@
        + summary.analytic_flow_rate.scientific@
        + " pressureDropFromMean="@
        + summary.pressure_drop_from_mean.scientific@
        + " minVelocity="@
        + summary.min_velocity.scientific@
        + " maxVelocity="@
        + summary.max_velocity.scientific@
}

/// What is shown of the solution.
pub fn poiseuille_result(summary: &PoiseuilleSolutionSummary) -> (line: String)
    ensures
        line@ == poiseuille_result_line(*summary),
{
    let mut line = "poiseuille result: meanVelocity=".to_string();
    line.append(summary.mean_velocity.scientific.as_str());
    line.append(" analyticMeanVelocity=");
    line.append(summary.analytic_mean_velocity.scientific.as_str());
    line.append(" relativeMeanVelocityError=");
    line.append(summary.relative_mean_velocity_error.scientific.as_str());
    line.append(" flowRate=");
    line.append(summary.flow_rate.scientific.as_str());
    line.append(" analyticFlowRate=");
    line.append(summary.analytic_flow_rate.scientific.as_str());
    line.append(" pressureDropFromMean=");
    line.append(summary.pressure_drop_from_mean.scientific.as_str());
    line.append(" minVelocity=");
    line.append(summary.min_velocity.scientific.as_str());
    line.append(" maxVelocity=");
    line.append(summary.max_velocity.scientific.as_str());
    line
}

} // verus!
