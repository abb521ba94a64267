//! What the options of a solver command line ask for.

use crate::flow;
use crate::reals::{RealKind, RealView, Readings};
use crate::solver_args;
use crate::solver_args::{SettingView, SolverOption, ValueView};
use crate::text;
use vstd::prelude::*;

verus! {

/// Whether an argument is a word behind one or two dashes.
pub open spec fn is_dashed(arg: Seq<char>, word: Seq<char>) -> bool {
    arg == "-"@ + word || arg == "--"@ + word
}

/// Each option is asked for by its own words and by no others.
pub proof fn option_words(arg: Seq<char>)
    ensures
        match solver_args::option_named(arg) {
            Some(SolverOption::Preflight) => arg == "-preflight"@ || arg == "--preflight"@ || arg
                == "-dryRun"@ || arg == "--dry-run"@,
            Some(SolverOption::Case) => is_dashed(arg, "case"@),
            Some(SolverOption::PlanJson) => is_dashed(arg, "planJson"@) || is_dashed(
                arg,
                "plan-json"@,
            ),
            Some(SolverOption::RunnerDryRun) => is_dashed(arg, "runnerDryRun"@) || is_dashed(
                arg,
                "runner-dry-run"@,
            ),
            Some(SolverOption::MaxRunnerSteps) => is_dashed(arg, "maxRunnerSteps"@) || is_dashed(
                arg,
                "max-runner-steps"@,
            ),
            Some(SolverOption::SolveScalarDiffusion) => is_dashed(arg, "solveScalarDiffusion"@) || is_dashed(
                arg,
                "solve-scalar-diffusion"@,
            ),
            Some(SolverOption::SolvePoiseuille) => is_dashed(arg, "solvePoiseuille"@) || is_dashed(
                arg,
                "solve-poiseuille"@,
            ),
            Some(SolverOption::SolveLaminarSimple) => is_dashed(arg, "solveLaminarSimple"@) || is_dashed(
                arg,
                "solve-laminar-simple"@,
            ),
            Some(SolverOption::Diffusivity) => is_dashed(arg, "diffusivity"@),
            Some(SolverOption::Source) => is_dashed(arg, "source"@),
            Some(SolverOption::PressureDrop) => is_dashed(arg, "pressureDrop"@) || is_dashed(
                arg,
                "pressure-drop"@,
            ),
            Some(SolverOption::Rho) => is_dashed(arg, "rho"@),
            Some(SolverOption::Mu) => is_dashed(arg, "mu"@),
            Some(SolverOption::Length) => is_dashed(arg, "length"@),
            Some(SolverOption::Diameter) => is_dashed(arg, "diameter"@),
            Some(SolverOption::WallPatch) => is_dashed(arg, "wallPatch"@) || is_dashed(
                arg,
                "wall-patch"@,
            ),
            Some(SolverOption::LinearSolver) => is_dashed(arg, "linearSolver"@) || is_dashed(
                arg,
                "linear-solver"@,
            ),
            Some(SolverOption::MomentumLinearSolver) => is_dashed(arg, "momentumLinearSolver"@) || is_dashed(
                arg,
                "momentum-linear-solver"@,
            ),
            Some(SolverOption::PressureLinearSolver) => is_dashed(arg, "pressureLinearSolver"@) || is_dashed(
                arg,
                "pressure-linear-solver"@,
            ),
            Some(SolverOption::MomentumPreconditioner) => is_dashed(arg, "momentumPreconditioner"@) || is_dashed(
                arg,
                "momentum-preconditioner"@,
            ),
            Some(SolverOption::PressurePreconditioner) => is_dashed(arg, "pressurePreconditioner"@) || is_dashed(
                arg,
                "pressure-preconditioner"@,
            ),
            Some(SolverOption::SolveTolerance) => is_dashed(arg, "solveTolerance"@) || is_dashed(
                arg,
                "solve-tolerance"@,
            ),
            Some(SolverOption::MaxIterations) => is_dashed(arg, "maxIterations"@) || is_dashed(
                arg,
                "max-iterations"@,
            ),
            Some(SolverOption::MomentumSolveTolerance) => is_dashed(arg, "momentumSolveTolerance"@) || is_dashed(
                arg,
                "momentum-solve-tolerance"@,
            ),
            Some(SolverOption::PressureSolveTolerance) => is_dashed(arg, "pressureSolveTolerance"@) || is_dashed(
                arg,
                "pressure-solve-tolerance"@,
            ),
            Some(SolverOption::MomentumMaxIterations) => is_dashed(arg, "momentumMaxIterations"@) || is_dashed(
                arg,
                "momentum-max-iterations"@,
            ),
            Some(SolverOption::PressureMaxIterations) => is_dashed(arg, "pressureMaxIterations"@) || is_dashed(
                arg,
                "pressure-max-iterations"@,
            ),
            Some(SolverOption::MaxSimpleIterations) => is_dashed(arg, "maxSimpleIterations"@) || is_dashed(
                arg,
                "max-simple-iterations"@,
            ),
            Some(SolverOption::MinSimpleIterations) => is_dashed(arg, "minSimpleIterations"@) || is_dashed(
                arg,
                "min-simple-iterations"@,
            ),
            Some(SolverOption::NonOrthogonalCorrectors) => is_dashed(arg, "nNonOrthogonalCorrectors"@) || is_dashed(
                arg,
                "n-non-orthogonal-correctors"@,
            ),
            Some(SolverOption::SimpleConsistent) => is_dashed(arg, "simpleConsistent"@) || is_dashed(
                arg,
                "simple-consistent"@,
            ),
            Some(SolverOption::NoSimpleConsistent) => is_dashed(arg, "noSimpleConsistent"@) || is_dashed(
                arg,
                "no-simple-consistent"@,
            ),
            Some(SolverOption::PRefCell) => is_dashed(arg, "pRefCell"@) || is_dashed(
                arg,
                "p-ref-cell"@,
            ),
            Some(SolverOption::PRefValue) => is_dashed(arg, "pRefValue"@) || is_dashed(
                arg,
                "p-ref-value"@,
            ),
            Some(SolverOption::VelocityRelaxation) => is_dashed(arg, "velocityRelaxation"@) || is_dashed(
                arg,
                "velocity-relaxation"@,
            ),
            Some(SolverOption::PressureRelaxation) => is_dashed(arg, "pressureRelaxation"@) || is_dashed(
                arg,
                "pressure-relaxation"@,
            ),
            Some(SolverOption::SolveVerbose) => is_dashed(arg, "solveVerbose"@) || is_dashed(
                arg,
                "solve-verbose"@,
            ),
            Some(SolverOption::SolveResidualCsv) => is_dashed(arg, "solveResidualCsv"@) || is_dashed(
                arg,
                "solve-residual-csv"@,
            ),
            Some(SolverOption::SolveResidualPlot) => is_dashed(arg, "solveResidualPlot"@) || is_dashed(
                arg,
                "solve-residual-plot"@,
            ),
            Some(SolverOption::SolveReportJson) => is_dashed(arg, "solveReportJson"@) || is_dashed(
                arg,
                "solve-report-json"@,
            ),
            Some(SolverOption::SolveReportMarkdown) => is_dashed(arg, "solveReportMarkdown"@) || is_dashed(
                arg,
                "solve-report-markdown"@,
            ),
            Some(SolverOption::WriteFinalFields) => is_dashed(arg, "writeFinalFields"@) || is_dashed(
                arg,
                "write-final-fields"@,
            ),
            None => arg != "-preflight"@ && arg != "--preflight"@
                && !is_dashed(arg, "case"@)
                && !is_dashed(arg, "planJson"@) && !is_dashed(arg, "plan-json"@)
                && !is_dashed(arg, "runnerDryRun"@) && !is_dashed(arg, "runner-dry-run"@)
                && !is_dashed(arg, "maxRunnerSteps"@) && !is_dashed(arg, "max-runner-steps"@)
                && !is_dashed(arg, "solveScalarDiffusion"@) && !is_dashed(arg, "solve-scalar-diffusion"@)
                && !is_dashed(arg, "solvePoiseuille"@) && !is_dashed(arg, "solve-poiseuille"@)
                && !is_dashed(arg, "solveLaminarSimple"@) && !is_dashed(arg, "solve-laminar-simple"@)
                && !is_dashed(arg, "diffusivity"@)
                && !is_dashed(arg, "source"@)
                && !is_dashed(arg, "pressureDrop"@) && !is_dashed(arg, "pressure-drop"@)
                && !is_dashed(arg, "rho"@)
                && !is_dashed(arg, "mu"@)
                && !is_dashed(arg, "length"@)
                && !is_dashed(arg, "diameter"@)
                && !is_dashed(arg, "wallPatch"@) && !is_dashed(arg, "wall-patch"@)
                && !is_dashed(arg, "linearSolver"@) && !is_dashed(arg, "linear-solver"@)
                && !is_dashed(arg, "momentumLinearSolver"@) && !is_dashed(arg, "momentum-linear-solver"@)
                && !is_dashed(arg, "pressureLinearSolver"@) && !is_dashed(arg, "pressure-linear-solver"@)
                && !is_dashed(arg, "momentumPreconditioner"@) && !is_dashed(arg, "momentum-preconditioner"@)
                && !is_dashed(arg, "pressurePreconditioner"@) && !is_dashed(arg, "pressure-preconditioner"@)
                && !is_dashed(arg, "solveTolerance"@) && !is_dashed(arg, "solve-tolerance"@)
                && !is_dashed(arg, "maxIterations"@) && !is_dashed(arg, "max-iterations"@)
                && !is_dashed(arg, "momentumSolveTolerance"@) && !is_dashed(arg, "momentum-solve-tolerance"@)
                && !is_dashed(arg, "pressureSolveTolerance"@) && !is_dashed(arg, "pressure-solve-tolerance"@)
                && !is_dashed(arg, "momentumMaxIterations"@) && !is_dashed(arg, "momentum-max-iterations"@)
                && !is_dashed(arg, "pressureMaxIterations"@) && !is_dashed(arg, "pressure-max-iterations"@)
                && !is_dashed(arg, "maxSimpleIterations"@) && !is_dashed(arg, "max-simple-iterations"@)
                && !is_dashed(arg, "minSimpleIterations"@) && !is_dashed(arg, "min-simple-iterations"@)
                && !is_dashed(arg, "nNonOrthogonalCorrectors"@) && !is_dashed(arg, "n-non-orthogonal-correctors"@)
                && !is_dashed(arg, "simpleConsistent"@) && !is_dashed(arg, "simple-consistent"@)
                && !is_dashed(arg, "noSimpleConsistent"@) && !is_dashed(arg, "no-simple-consistent"@)
                && !is_dashed(arg, "pRefCell"@) && !is_dashed(arg, "p-ref-cell"@)
                && !is_dashed(arg, "pRefValue"@) && !is_dashed(arg, "p-ref-value"@)
                && !is_dashed(arg, "velocityRelaxation"@) && !is_dashed(arg, "velocity-relaxation"@)
                && !is_dashed(arg, "pressureRelaxation"@) && !is_dashed(arg, "pressure-relaxation"@)
                && !is_dashed(arg, "solveVerbose"@) && !is_dashed(arg, "solve-verbose"@)
                && !is_dashed(arg, "solveResidualCsv"@) && !is_dashed(arg, "solve-residual-csv"@)
                && !is_dashed(arg, "solveResidualPlot"@) && !is_dashed(arg, "solve-residual-plot"@)
                && !is_dashed(arg, "solveReportJson"@) && !is_dashed(arg, "solve-report-json"@)
                && !is_dashed(arg, "solveReportMarkdown"@) && !is_dashed(arg, "solve-report-markdown"@)
                && !is_dashed(arg, "writeFinalFields"@) && !is_dashed(arg, "write-final-fields"@),
        },
{
}

/// The arguments are taken in their order: the setting of an option comes before
/// those of the arguments behind it and behind its value.
pub proof fn settings_follow_the_arguments(readings: Readings, args: Seq<Seq<char>>, at: int)
    requires
        0 <= at < args.len(),
        solver_args::settings_from(readings, args, at) is Ok,
    ensures
        ({
            let all = solver_args::settings_from(readings, args, at)->Ok_0;
            &&& all.len() > 0
            &&& solver_args::option_named(args[at]) == Some(all[0].option)
            &&& match all[0].value {
                ValueView::Present => solver_args::settings_from(readings, args, at + 1) == Ok::<
                    Seq<SettingView>,
                    Seq<char>,
                >(all.skip(1)),
                ValueView::Switch(on) => (on && solver_args::settings_from(
                    readings,
                    args,
                    at + 1,
                ) == Ok::<Seq<SettingView>, Seq<char>>(all.skip(1))) || (at + 1 < args.len()
                    && crate::arguments::truth(args[at + 1]) == Some(on)
                    && solver_args::settings_from(readings, args, at + 2) == Ok::<
                    Seq<SettingView>,
                    Seq<char>,
                >(all.skip(1))),
                _ => at + 1 < args.len() && solver_args::settings_from(readings, args, at + 2)
                    == Ok::<Seq<SettingView>, Seq<char>>(all.skip(1))
                    && solver_args::value_read(readings, all[0].option, args[at + 1]) == Ok::<
                    ValueView,
                    Seq<char>,
                >(all[0].value),
            }
        }),
{
    let all = solver_args::settings_from(readings, args, at)->Ok_0;
    let (setting, used) = solver_args::setting_at(readings, args, at)->Ok_0;
    let rest = solver_args::settings_from(readings, args, at + used)->Ok_0;
    assert(all.skip(1) =~= rest);
}

/// An argument that is no option is refused, wherever the options before it end.
pub proof fn unknown_option_is_refused(readings: Readings, args: Seq<Seq<char>>, at: int)
    requires
        0 <= at < args.len(),
        solver_args::option_named(args[at]) is None,
    ensures
        solver_args::settings_from(readings, args, at) is Err,
{
}

/// What stands behind an option is what it is given: its text, the count or the
/// number that it denotes, or what it names.
pub proof fn values_are_those_of_the_arguments(
    readings: Readings,
    option: SolverOption,
    value: Seq<char>,
)
    requires
        solver_args::value_read(readings, option, value) is Ok,
    ensures
        match solver_args::value_read(readings, option, value)->Ok_0 {
            ValueView::Present => true,
            ValueView::Switch(on) => crate::arguments::truth(value) == Some(on),
            ValueView::Text(found) => found == value,
            ValueView::Count(count) => text::natural(value, usize::MAX as nat) == Some(count),
            ValueView::Number(number) => readings.number(value) == Some(number) && number.kind
                != RealKind::NotFinite,
            ValueView::Solver(solver, word) => word == value && flow::solver_named(value) == Ok::<
                flow::LaminarSimpleLinearSolver,
                Seq<char>,
            >(solver),
            ValueView::Preconditioner(found) => flow::preconditioner_named(value) == Ok::<
                flow::LaminarSimplePreconditioner,
                Seq<char>,
            >(found),
        },
{
}

/// The numbers of the options lie where they can be used: sizes above zero,
/// tolerances not below it, relaxation up to one; and limits of iterations allow one.
pub proof fn numbers_lie_where_they_can_be_used(
    readings: Readings,
    option: SolverOption,
    value: Seq<char>,
    number: RealView,
    count: nat,
)
    ensures
        solver_args::value_read(readings, option, value) == Ok::<ValueView, Seq<char>>(
            ValueView::Number(number),
        ) ==> match option {
            SolverOption::Diffusivity
            | SolverOption::PressureDrop
            | SolverOption::Rho
            | SolverOption::Mu
            | SolverOption::Length
            | SolverOption::Diameter => number.kind == RealKind::UpToOne || number.kind
                == RealKind::AboveOne,
            SolverOption::SolveTolerance
            | SolverOption::MomentumSolveTolerance
            | SolverOption::PressureSolveTolerance => number.kind != RealKind::Negative
                && number.kind != RealKind::NotFinite,
            SolverOption::VelocityRelaxation
            | SolverOption::PressureRelaxation => number.kind == RealKind::UpToOne,
            SolverOption::Source | SolverOption::PRefValue => number.kind != RealKind::NotFinite,
            _ => false,
        },
        solver_args::value_read(readings, option, value) == Ok::<ValueView, Seq<char>>(
            ValueView::Count(count),
        ) ==> match option {
            SolverOption::NonOrthogonalCorrectors | SolverOption::PRefCell => true,
            SolverOption::MaxRunnerSteps
            | SolverOption::MaxIterations
            | SolverOption::MomentumMaxIterations
            | SolverOption::PressureMaxIterations
            | SolverOption::MaxSimpleIterations
            | SolverOption::MinSimpleIterations => count > 0,
            _ => false,
        },
{
}

/// Whether the setting at `at` is the last one of its option.
pub open spec fn is_last(settings: Seq<SettingView>, at: int) -> bool {
    &&& 0 <= at < settings.len()
    &&& forall|later: int|
        at < later < settings.len() ==> (#[trigger] settings[later]).option
            != settings[at].option
}

/// Of two settings of an option the later counts; an option that is not given has no
/// value.
pub proof fn last_setting_counts(settings: Seq<SettingView>, at: int, option: SolverOption)
    ensures
        is_last(settings, at) ==> solver_args::last_of(settings, settings[at].option) == Some(
            settings[at].value,
        ),
        (forall|i: int| 0 <= i < settings.len() ==> (#[trigger] settings[i]).option != option)
            ==> solver_args::last_of(settings, option) is None,
    decreases settings.len(),
{
    if settings.len() > 0 {
        let front = settings.drop_last();
        last_setting_counts(front, at, option);
        if is_last(settings, at) && at < settings.len() - 1 {
            assert(settings[settings.len() - 1].option != settings[at].option);
            assert forall|later: int| at < later < front.len() implies (
            #[trigger] front[later]).option != front[at].option by {
                assert(front[later] == settings[later]);
            }
            assert(is_last(front, at));
        }
        if forall|i: int| 0 <= i < settings.len() ==> (#[trigger] settings[i]).option != option {
            assert forall|i: int| 0 <= i < front.len() implies (#[trigger] front[i]).option
                != option by {
                assert(front[i] == settings[i]);
            }
            assert(settings[settings.len() - 1].option != option);
        }
    }
}

/// The request of a laminar flow has each value under its own name: that of the last
/// setting of the option, wherever it stands.
pub proof fn laminar_request_has_its_options(settings: Seq<SettingView>, at: int)
    requires
        is_last(settings, at),
        solver_args::laminar_solve(settings) is Some,
    ensures
        ({
            let found = solver_args::laminar_solve(settings)->0;
            match (settings[at].option, settings[at].value) {
                (SolverOption::Rho, ValueView::Number(value)) => found.density
                    == Some(value),
                (SolverOption::Mu, ValueView::Number(value)) => found.dynamic_viscosity
                    == Some(value),
                (SolverOption::LinearSolver, ValueView::Solver(value, _)) => found.linear_solver
                    == Some(value),
                (SolverOption::MomentumLinearSolver, ValueView::Solver(value, _)) => found.momentum_linear_solver
                    == Some(value),
                (SolverOption::PressureLinearSolver, ValueView::Solver(value, _)) => found.pressure_linear_solver
                    == Some(value),
                (SolverOption::MomentumPreconditioner, ValueView::Preconditioner(value)) => found.momentum_preconditioner
                    == Some(value),
                (SolverOption::PressurePreconditioner, ValueView::Preconditioner(value)) => found.pressure_preconditioner
                    == Some(value),
                (SolverOption::SolveTolerance, ValueView::Number(value)) => found.linear_tolerance
                    == Some(value),
                (SolverOption::MaxIterations, ValueView::Count(value)) => found.max_linear_iterations
                    == Some(value),
                (SolverOption::MomentumSolveTolerance, ValueView::Number(value)) => found.momentum_linear_tolerance
                    == Some(value),
                (SolverOption::PressureSolveTolerance, ValueView::Number(value)) => found.pressure_linear_tolerance
                    == Some(value),
                (SolverOption::MomentumMaxIterations, ValueView::Count(value)) => found.momentum_max_linear_iterations
                    == Some(value),
                (SolverOption::PressureMaxIterations, ValueView::Count(value)) => found.pressure_max_linear_iterations
                    == Some(value),
                (SolverOption::MaxSimpleIterations, ValueView::Count(value)) => found.max_simple_iterations
                    == Some(value),
                (SolverOption::MinSimpleIterations, ValueView::Count(value)) => found.min_simple_iterations
                    == Some(value),
                (SolverOption::PRefCell, ValueView::Count(value)) => found.pressure_reference_cell
                    == Some(value),
                (SolverOption::PRefValue, ValueView::Number(value)) => found.pressure_reference_value
                    == Some(value),
                (SolverOption::NonOrthogonalCorrectors, ValueView::Count(value)) => found.non_orthogonal_correctors
                    == Some(value),
                (SolverOption::VelocityRelaxation, ValueView::Number(value)) => found.velocity_relaxation
                    == Some(value),
                (SolverOption::PressureRelaxation, ValueView::Number(value)) => found.pressure_relaxation
                    == Some(value),
                (SolverOption::SolveVerbose, _) => found.solve_verbose,
                (SolverOption::SolveResidualCsv, ValueView::Text(value)) => found.solve_residual_csv
                    == Some(value),
                (SolverOption::SolveResidualPlot, ValueView::Text(value)) => found.solve_residual_plot
                    == Some(value),
                (SolverOption::SolveReportJson, ValueView::Text(value)) => found.report_json
                    == Some(value),
                (SolverOption::SolveReportMarkdown, ValueView::Text(value)) => found.report_markdown
                    == Some(value),
                (SolverOption::WriteFinalFields, ValueView::Text(value)) => found.write_final_fields
                    == Some(value),
                _ => true,
            }
        }),
{
    last_setting_counts(settings, at, settings[at].option);
}

/// A value that no option gives is missing from the request of a laminar flow.
pub proof fn laminar_request_has_nothing_else(settings: Seq<SettingView>, option: SolverOption)
    requires
        forall|i: int| 0 <= i < settings.len() ==> (#[trigger] settings[i]).option != option,
        solver_args::laminar_solve(settings) is Some,
    ensures
        ({
            let found = solver_args::laminar_solve(settings)->0;
            match option {
                SolverOption::Rho => found.density is None,
                SolverOption::Mu => found.dynamic_viscosity is None,
                SolverOption::LinearSolver => found.linear_solver is None,
                SolverOption::MomentumLinearSolver => found.momentum_linear_solver is None,
                SolverOption::PressureLinearSolver => found.pressure_linear_solver is None,
                SolverOption::MomentumPreconditioner => found.momentum_preconditioner is None,
                SolverOption::PressurePreconditioner => found.pressure_preconditioner is None,
                SolverOption::SolveTolerance => found.linear_tolerance is None,
                SolverOption::MaxIterations => found.max_linear_iterations is None,
                SolverOption::MomentumSolveTolerance => found.momentum_linear_tolerance is None,
                SolverOption::PressureSolveTolerance => found.pressure_linear_tolerance is None,
                SolverOption::MomentumMaxIterations => found.momentum_max_linear_iterations is None,
                SolverOption::PressureMaxIterations => found.pressure_max_linear_iterations is None,
                SolverOption::MaxSimpleIterations => found.max_simple_iterations is None,
                SolverOption::MinSimpleIterations => found.min_simple_iterations is None,
                SolverOption::PRefCell => found.pressure_reference_cell is None,
                SolverOption::PRefValue => found.pressure_reference_value is None,
                SolverOption::NonOrthogonalCorrectors => found.non_orthogonal_correctors is None,
                SolverOption::VelocityRelaxation => found.velocity_relaxation is None,
                SolverOption::PressureRelaxation => found.pressure_relaxation is None,
                SolverOption::SolveVerbose => !found.solve_verbose,
                SolverOption::SolveResidualCsv => found.solve_residual_csv is None,
                SolverOption::SolveResidualPlot => found.solve_residual_plot is None,
                SolverOption::SolveReportJson => found.report_json is None,
                SolverOption::SolveReportMarkdown => found.report_markdown is None,
                SolverOption::WriteFinalFields => found.write_final_fields is None,
                _ => true,
            }
        }),
{
    last_setting_counts(settings, 0, option);
}

/// The requests of a scalar equation and of a pipe have each value under its own
/// name.
pub proof fn other_requests_have_their_options(settings: Seq<SettingView>, at: int)
    requires
        is_last(settings, at),
        solver_args::asked(settings) is Ok,
    ensures
        ({
            let found = solver_args::asked(settings)->Ok_0;
            &&& found.scalar_diffusion_solve matches Some(scalar) ==> match (
                settings[at].option,
                settings[at].value,
            ) {
                (SolverOption::SolveScalarDiffusion, ValueView::Text(value)) => scalar.field
                    == value,
                (SolverOption::Diffusivity, ValueView::Number(value)) => scalar.diffusivity
                    == value,
                (SolverOption::Source, ValueView::Number(value)) => scalar.source == value,
                (SolverOption::SolveTolerance, ValueView::Number(value)) => scalar.tolerance
                    == value,
                (SolverOption::MaxIterations, ValueView::Count(value)) => scalar.max_iterations
                    == value,
                _ => true,
            }
            &&& found.poiseuille_solve matches Some(pipe) ==> match (
                settings[at].option,
                settings[at].value,
            ) {
                (SolverOption::PressureDrop, ValueView::Number(value)) => pipe.pressure_drop
                    == Some(value),
                (SolverOption::Mu, ValueView::Number(value)) => pipe.dynamic_viscosity == Some(
                    value,
                ),
                (SolverOption::Length, ValueView::Number(value)) => pipe.length == Some(value),
                (SolverOption::Diameter, ValueView::Number(value)) => pipe.diameter == Some(value),
                (SolverOption::SolveTolerance, ValueView::Number(value)) => pipe.tolerance
                    == value,
                (SolverOption::MaxIterations, ValueView::Count(value)) => pipe.max_iterations
                    == value,
                (SolverOption::WallPatch, ValueView::Text(value)) => pipe.wall_patches.contains(
                    value,
                ),
                _ => true,
            }
            &&& match (settings[at].option, settings[at].value) {
                (SolverOption::Case, ValueView::Text(value)) => found.case_dir == value,
                (SolverOption::PlanJson, ValueView::Text(value)) => found.plan_json == Some(value),
                (SolverOption::MaxRunnerSteps, ValueView::Count(value)) => found.max_runner_steps
                    == value,
                (SolverOption::RunnerDryRun, _) => found.runner_dry_run,
                (SolverOption::SolveLaminarSimple, _) => found.laminar_simple_solve is Some,
                (SolverOption::SolvePoiseuille, _) => found.poiseuille_solve is Some,
                (SolverOption::SolveScalarDiffusion, ValueView::Text(_)) =>
                    found.scalar_diffusion_solve is Some,
                _ => true,
            }
        }),
{
    last_setting_counts(settings, at, settings[at].option);
    lemma_walls(settings, at);
}

proof fn lemma_walls(settings: Seq<SettingView>, at: int)
    requires
        0 <= at < settings.len(),
    ensures
        settings[at].option == SolverOption::WallPatch ==> (settings[at].value matches
            ValueView::Text(value) ==> solver_args::all_of(
            settings,
            SolverOption::WallPatch,
        ).contains(value)),
    decreases settings.len(),
{
    let front = settings.drop_last();
    let all = solver_args::all_of(settings, SolverOption::WallPatch);
    if let ValueView::Text(value) = settings[at].value {
        if settings[at].option == SolverOption::WallPatch {
            if at < front.len() {
                lemma_walls(front, at);
                let earlier = solver_args::all_of(front, SolverOption::WallPatch);
                let k = choose|k: int| 0 <= k < earlier.len() && earlier[k] == value;
                assert(all[k] == value);
            } else {
                assert(all[all.len() - 1] == value);
            }
        }
    }
}

/// An option without the solve that it belongs to is refused.
pub proof fn stray_option_is_refused(settings: Seq<SettingView>, at: int)
    requires
        0 <= at < settings.len(),
        ({
            let scalar = solver_args::is_set(settings, SolverOption::SolveScalarDiffusion);
            let pipe = solver_args::is_set(settings, SolverOption::SolvePoiseuille);
            let laminar = solver_args::is_set(settings, SolverOption::SolveLaminarSimple);
            match settings[at].option {
                SolverOption::Diffusivity | SolverOption::Source => !scalar,
                SolverOption::PressureDrop
                | SolverOption::Length
                | SolverOption::Diameter
                | SolverOption::WallPatch => !pipe,
                SolverOption::Mu => !pipe && !laminar,
                SolverOption::Rho
                | SolverOption::MaxSimpleIterations
                | SolverOption::MinSimpleIterations
                | SolverOption::VelocityRelaxation
                | SolverOption::PressureRelaxation
                | SolverOption::WriteFinalFields => !laminar,
                SolverOption::LinearSolver
                | SolverOption::SolveTolerance
                | SolverOption::MaxIterations => !scalar && !pipe && !laminar,
                _ => false,
            }
        }),
    ensures
        solver_args::asked(settings) is Err,
{
    assert(solver_args::group(settings[at].option) == solver_args::group(settings[at].option));
}

} // verus!
