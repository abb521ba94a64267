//! The command line of the solver.

use crate::arguments;
use crate::flow;
use crate::flow::{LaminarSimpleLinearSolver, LaminarSimplePreconditioner};
use crate::reals;
use crate::reals::{Real, RealKind, RealView, Readings};
use crate::text;
use vstd::prelude::*;

verus! {

/// How many steps a dry run shows where nothing else is asked for.
pub const DEFAULT_RUNNER_STEPS: usize = 3;

/// How many iterations a linear solver makes at most where nothing else is
/// asked for.
pub const DEFAULT_MAX_ITERATIONS: usize = 10000;

/// The linear solvers of the scalar equations.
#[derive(Clone, Copy, Debug, Eq, PartialEq, Structural)]
pub enum ScalarDiffusionLinearSolver {
    Cg,
    Jacobi,
}

/// What the command line asks of the solver.
#[derive(Debug)]
pub struct SolverArgs {
    pub case_dir: String,
    pub plan_json: Option<String>,
    pub runner_dry_run: bool,
    pub max_runner_steps: usize,
    pub scalar_diffusion_solve: Option<ScalarDiffusionSolveArgs>,
    pub poiseuille_solve: Option<PoiseuilleSolveArgs>,
    pub laminar_simple_solve: Option<LaminarSimpleSolveArgs>,
}

/// A request to solve the diffusion of a scalar field.
#[derive(Debug)]
pub struct ScalarDiffusionSolveArgs {
    pub field: String,
    pub diffusivity: Real,
    pub source: Real,
    pub linear_solver: ScalarDiffusionLinearSolver,
    pub tolerance: Real,
    pub max_iterations: usize,
}

/// A request to solve the flow through a pipe.
#[derive(Debug)]
pub struct PoiseuilleSolveArgs {
    pub pressure_drop: Option<Real>,
    pub dynamic_viscosity: Option<Real>,
    pub length: Option<Real>,
    pub diameter: Option<Real>,
    pub wall_patches: Vec<String>,
    pub linear_solver: ScalarDiffusionLinearSolver,
    pub tolerance: Real,
    pub max_iterations: usize,
}

/// A request to solve the laminar flow with the SIMPLE method.
#[derive(Debug)]
pub struct LaminarSimpleSolveArgs {
    pub density: Option<Real>,
    pub dynamic_viscosity: Option<Real>,
    pub linear_solver: Option<LaminarSimpleLinearSolver>,
    pub momentum_linear_solver: Option<LaminarSimpleLinearSolver>,
    pub pressure_linear_solver: Option<LaminarSimpleLinearSolver>,
    pub momentum_preconditioner: Option<LaminarSimplePreconditioner>,
    pub pressure_preconditioner: Option<LaminarSimplePreconditioner>,
    pub linear_tolerance: Option<Real>,
    pub max_linear_iterations: Option<usize>,
    pub momentum_linear_tolerance: Option<Real>,
    pub pressure_linear_tolerance: Option<Real>,
    pub momentum_max_linear_iterations: Option<usize>,
    pub pressure_max_linear_iterations: Option<usize>,
    pub max_simple_iterations: Option<usize>,
    pub min_simple_iterations: Option<usize>,
    pub pressure_reference_cell: Option<usize>,
    pub pressure_reference_value: Option<Real>,
    pub non_orthogonal_correctors: Option<usize>,
    pub simple_consistent: Option<bool>,
    pub velocity_relaxation: Option<Real>,
    pub pressure_relaxation: Option<Real>,
    pub solve_verbose: bool,
    pub solve_residual_csv: Option<String>,
    pub solve_residual_plot: Option<String>,
    pub report_json: Option<String>,
    pub report_markdown: Option<String>,
    pub write_final_fields: Option<String>,
}

/// The mathematical view of [`ScalarDiffusionSolveArgs`].
pub struct ScalarDiffusionSolveView {
    pub field: Seq<char>,
    pub diffusivity: RealView,
    pub source: RealView,
    pub linear_solver: ScalarDiffusionLinearSolver,
    pub tolerance: RealView,
    pub max_iterations: nat,
}

/// The mathematical view of [`PoiseuilleSolveArgs`].
pub struct PoiseuilleSolveView {
    pub pressure_drop: Option<RealView>,
    pub dynamic_viscosity: Option<RealView>,
    pub length: Option<RealView>,
    pub diameter: Option<RealView>,
    pub wall_patches: Seq<Seq<char>>,
    pub linear_solver: ScalarDiffusionLinearSolver,
    pub tolerance: RealView,
    pub max_iterations: nat,
}

/// The mathematical view of [`LaminarSimpleSolveArgs`].
pub struct LaminarSimpleSolveView {
    pub density: Option<RealView>,
    pub dynamic_viscosity: Option<RealView>,
    pub linear_solver: Option<LaminarSimpleLinearSolver>,
    pub momentum_linear_solver: Option<LaminarSimpleLinearSolver>,
    pub pressure_linear_solver: Option<LaminarSimpleLinearSolver>,
    pub momentum_preconditioner: Option<LaminarSimplePreconditioner>,
    pub pressure_preconditioner: Option<LaminarSimplePreconditioner>,
    pub linear_tolerance: Option<RealView>,
    pub max_linear_iterations: Option<nat>,
    pub momentum_linear_tolerance: Option<RealView>,
    pub pressure_linear_tolerance: Option<RealView>,
    pub momentum_max_linear_iterations: Option<nat>,
    pub pressure_max_linear_iterations: Option<nat>,
    pub max_simple_iterations: Option<nat>,
    pub min_simple_iterations: Option<nat>,
    pub pressure_reference_cell: Option<nat>,
    pub pressure_reference_value: Option<RealView>,
    pub non_orthogonal_correctors: Option<nat>,
    pub simple_consistent: Option<bool>,
    pub velocity_relaxation: Option<RealView>,
    pub pressure_relaxation: Option<RealView>,
    pub solve_verbose: bool,
    pub solve_residual_csv: Option<Seq<char>>,
    pub solve_residual_plot: Option<Seq<char>>,
    pub report_json: Option<Seq<char>>,
    pub report_markdown: Option<Seq<char>>,
    pub write_final_fields: Option<Seq<char>>,
}

/// The mathematical view of [`SolverArgs`].
pub struct SolverArgsView {
    pub case_dir: Seq<char>,
    pub plan_json: Option<Seq<char>>,
    pub runner_dry_run: bool,
    pub max_runner_steps: nat,
    pub scalar_diffusion_solve: Option<ScalarDiffusionSolveView>,
    pub poiseuille_solve: Option<PoiseuilleSolveView>,
    pub laminar_simple_solve: Option<LaminarSimpleSolveView>,
}

/// The view of an optional count.
pub open spec fn opt_count(count: Option<usize>) -> Option<nat> {
    match count {
        Some(inner) => Some(inner as nat),
        None => None,
    }
}

impl View for ScalarDiffusionSolveArgs {
    type V = ScalarDiffusionSolveView;

    open spec fn view(&self) -> ScalarDiffusionSolveView {
        ScalarDiffusionSolveView {
            field: self.field@,
            diffusivity: self.diffusivity@,
            source: self.source@,
            linear_solver: self.linear_solver,
            tolerance: self.tolerance@,
            max_iterations: self.max_iterations as nat,
        }
    }
}

impl View for PoiseuilleSolveArgs {
    type V = PoiseuilleSolveView;

    open spec fn view(&self) -> PoiseuilleSolveView {
        PoiseuilleSolveView {
            pressure_drop: reals::opt_real(self.pressure_drop),
            dynamic_viscosity: reals::opt_real(self.dynamic_viscosity),
            length: reals::opt_real(self.length),
            diameter: reals::opt_real(self.diameter),
            wall_patches: text::texts(self.wall_patches@),
            linear_solver: self.linear_solver,
            tolerance: self.tolerance@,
            max_iterations: self.max_iterations as nat,
        }
    }
}

impl View for LaminarSimpleSolveArgs {
    type V = LaminarSimpleSolveView;

    open spec fn view(&self) -> LaminarSimpleSolveView {
        LaminarSimpleSolveView {
            density: reals::opt_real(self.density),
            dynamic_viscosity: reals::opt_real(self.dynamic_viscosity),
            linear_solver: self.linear_solver,
            momentum_linear_solver: self.momentum_linear_solver,
            pressure_linear_solver: self.pressure_linear_solver,
            momentum_preconditioner: self.momentum_preconditioner,
            pressure_preconditioner: self.pressure_preconditioner,
            linear_tolerance: reals::opt_real(self.linear_tolerance),
            max_linear_iterations: opt_count(self.max_linear_iterations),
            momentum_linear_tolerance: reals::opt_real(self.momentum_linear_tolerance),
            pressure_linear_tolerance: reals::opt_real(self.pressure_linear_tolerance),
            momentum_max_linear_iterations: opt_count(self.momentum_max_linear_iterations),
            pressure_max_linear_iterations: opt_count(self.pressure_max_linear_iterations),
            max_simple_iterations: opt_count(self.max_simple_iterations),
            min_simple_iterations: opt_count(self.min_simple_iterations),
            pressure_reference_cell: opt_count(self.pressure_reference_cell),
            pressure_reference_value: reals::opt_real(self.pressure_reference_value),
            non_orthogonal_correctors: opt_count(self.non_orthogonal_correctors),
            simple_consistent: self.simple_consistent,
            velocity_relaxation: reals::opt_real(self.velocity_relaxation),
            pressure_relaxation: reals::opt_real(self.pressure_relaxation),
            solve_verbose: self.solve_verbose,
            solve_residual_csv: text::opt_text(self.solve_residual_csv),
            solve_residual_plot: text::opt_text(self.solve_residual_plot),
            report_json: text::opt_text(self.report_json),
            report_markdown: text::opt_text(self.report_markdown),
            write_final_fields: text::opt_text(self.write_final_fields),
        }
    }
}

impl View for SolverArgs {
    type V = SolverArgsView;

    open spec fn view(&self) -> SolverArgsView {
        SolverArgsView {
            case_dir: self.case_dir@,
            plan_json: text::opt_text(self.plan_json),
            runner_dry_run: self.runner_dry_run,
            max_runner_steps: self.max_runner_steps as nat,
            scalar_diffusion_solve: match self.scalar_diffusion_solve {
                Some(solve) => Some(solve@),
                None => None,
            },
            poiseuille_solve: match self.poiseuille_solve {
                Some(solve) => Some(solve@),
                None => None,
            },
            laminar_simple_solve: match self.laminar_simple_solve {
                Some(solve) => Some(solve@),
                None => None,
            },
        }
    }
}

/// The options of the solver.
#[derive(Clone, Copy, Debug, Eq, PartialEq, Structural)]
pub enum SolverOption {
    Preflight,
    Case,
    PlanJson,
    RunnerDryRun,
    MaxRunnerSteps,
    SolveScalarDiffusion,
    SolvePoiseuille,
    SolveLaminarSimple,
    Diffusivity,
    Source,
    PressureDrop,
    Rho,
    Mu,
    Length,
    Diameter,
    WallPatch,
    LinearSolver,
    MomentumLinearSolver,
    PressureLinearSolver,
    MomentumPreconditioner,
    PressurePreconditioner,
    SolveTolerance,
    MaxIterations,
    MomentumSolveTolerance,
    PressureSolveTolerance,
    MomentumMaxIterations,
    PressureMaxIterations,
    MaxSimpleIterations,
    MinSimpleIterations,
    NonOrthogonalCorrectors,
    SimpleConsistent,
    NoSimpleConsistent,
    PRefCell,
    PRefValue,
    VelocityRelaxation,
    PressureRelaxation,
    SolveVerbose,
    SolveResidualCsv,
    SolveResidualPlot,
    SolveReportJson,
    SolveReportMarkdown,
    WriteFinalFields,
}

/// The solves that an option belongs to.
#[derive(Clone, Copy, Debug, Eq, PartialEq, Structural)]
pub enum OptionGroup {
    General,
    ScalarDiffusion,
    Poiseuille,
    LaminarSimple,
    SharedFlow,
    LinearSolve,
}

/// What stands behind an option.
#[derive(Clone, Copy, Debug, Eq, PartialEq, Structural)]
pub enum ValueKind {
    /// No value.
    Nothing,
    /// A truth value, or none.
    Switch,
    /// Any text.
    Text,
    /// The name of a field.
    FieldName,
    /// The name of a patch.
    PatchName,
    /// A count above zero.
    PositiveCount,
    /// A count.
    AnyCount,
    /// A finite number.
    Finite,
    /// A number above zero.
    Positive,
    /// A number not below zero.
    NonNegative,
    /// A number above zero and at most one.
    Relaxation,
    /// The name of a linear solver.
    Solver,
    /// The name of a preconditioner.
    Preconditioner,
}

/// The value of an option.
#[derive(Debug)]
pub enum SettingValue {
    Present,
    Switch(bool),
    Text(String),
    Count(usize),
    Number(Real),
    Solver(LaminarSimpleLinearSolver, String),
    Preconditioner(LaminarSimplePreconditioner),
}

/// The mathematical view of a [`SettingValue`].
pub enum ValueView {
    Present,
    Switch(bool),
    Text(Seq<char>),
    Count(nat),
    Number(RealView),
    Solver(LaminarSimpleLinearSolver, Seq<char>),
    Preconditioner(LaminarSimplePreconditioner),
}

impl View for SettingValue {
    type V = ValueView;

    open spec fn view(&self) -> ValueView {
        match *self {
            SettingValue::Present => ValueView::Present,
            SettingValue::Switch(on) => ValueView::Switch(on),
            SettingValue::Text(found) => ValueView::Text(found@),
            SettingValue::Count(count) => ValueView::Count(count as nat),
            SettingValue::Number(number) => ValueView::Number(number@),
            SettingValue::Solver(solver, word) => ValueView::Solver(solver, word@),
            SettingValue::Preconditioner(found) => ValueView::Preconditioner(found),
        }
    }
}

/// An option with its value.
#[derive(Debug)]
pub struct Setting {
    pub option: SolverOption,
    pub value: SettingValue,
}

/// The mathematical view of a [`Setting`].
pub struct SettingView {
    pub option: SolverOption,
    pub value: ValueView,
}

impl View for Setting {
    type V = SettingView;

    open spec fn view(&self) -> SettingView {
        SettingView { option: self.option, value: self.value@ }
    }
}

/// The views of settings.
pub open spec fn setting_views(settings: Seq<Setting>) -> Seq<SettingView> {
    Seq::new(settings.len(), |i: int| settings[i]@)
}

/// The option that an argument spells.
pub open spec fn option_named(arg: Seq<char>) -> Option<SolverOption> {
    if arg == "-preflight"@ || arg == "--preflight"@ || arg == "-dryRun"@ || arg == "--dry-run"@ {
        Some(SolverOption::Preflight)
    } else if arguments::spells(arg, "case"@, "case"@) {
        Some(SolverOption::Case)
    } else if arguments::spells(arg, "planJson"@, "plan-json"@) {
        Some(SolverOption::PlanJson)
    } else if arguments::spells(arg, "runnerDryRun"@, "runner-dry-run"@) {
        Some(SolverOption::RunnerDryRun)
    } else if arguments::spells(arg, "maxRunnerSteps"@, "max-runner-steps"@) {
        Some(SolverOption::MaxRunnerSteps)
    } else if arguments::spells(arg, "solveScalarDiffusion"@, "solve-scalar-diffusion"@) {
        Some(SolverOption::SolveScalarDiffusion)
    } else if arguments::spells(arg, "solvePoiseuille"@, "solve-poiseuille"@) {
        Some(SolverOption::SolvePoiseuille)
    } else if arguments::spells(arg, "solveLaminarSimple"@, "solve-laminar-simple"@) {
        Some(SolverOption::SolveLaminarSimple)
    } else if arguments::spells(arg, "diffusivity"@, "diffusivity"@) {
        Some(SolverOption::Diffusivity)
    } else if arguments::spells(arg, "source"@, "source"@) {
        Some(SolverOption::Source)
    } else if arguments::spells(arg, "pressureDrop"@, "pressure-drop"@) {
        Some(SolverOption::PressureDrop)
    } else if arguments::spells(arg, "rho"@, "rho"@) {
        Some(SolverOption::Rho)
    } else if arguments::spells(arg, "mu"@, "mu"@) {
        Some(SolverOption::Mu)
    } else if arguments::spells(arg, "length"@, "length"@) {
        Some(SolverOption::Length)
    } else if arguments::spells(arg, "diameter"@, "diameter"@) {
        Some(SolverOption::Diameter)
    } else if arguments::spells(arg, "wallPatch"@, "wall-patch"@) {
        Some(SolverOption::WallPatch)
    } else if arguments::spells(arg, "linearSolver"@, "linear-solver"@) {
        Some(SolverOption::LinearSolver)
    } else if arguments::spells(arg, "momentumLinearSolver"@, "momentum-linear-solver"@) {
        Some(SolverOption::MomentumLinearSolver)
    } else if arguments::spells(arg, "pressureLinearSolver"@, "pressure-linear-solver"@) {
        Some(SolverOption::PressureLinearSolver)
    } else if arguments::spells(arg, "momentumPreconditioner"@, "momentum-preconditioner"@) {
        Some(SolverOption::MomentumPreconditioner)
    } else if arguments::spells(arg, "pressurePreconditioner"@, "pressure-preconditioner"@) {
        Some(SolverOption::PressurePreconditioner)
    } else if arguments::spells(arg, "solveTolerance"@, "solve-tolerance"@) {
        Some(SolverOption::SolveTolerance)
    } else if arguments::spells(arg, "maxIterations"@, "max-iterations"@) {
        Some(SolverOption::MaxIterations)
    } else if arguments::spells(arg, "momentumSolveTolerance"@, "momentum-solve-tolerance"@) {
        Some(SolverOption::MomentumSolveTolerance)
    } else if arguments::spells(arg, "pressureSolveTolerance"@, "pressure-solve-tolerance"@) {
        Some(SolverOption::PressureSolveTolerance)
    } else if arguments::spells(arg, "momentumMaxIterations"@, "momentum-max-iterations"@) {
        Some(SolverOption::MomentumMaxIterations)
    } else if arguments::spells(arg, "pressureMaxIterations"@, "pressure-max-iterations"@) {
        Some(SolverOption::PressureMaxIterations)
    } else if arguments::spells(arg, "maxSimpleIterations"@, "max-simple-iterations"@) {
        Some(SolverOption::MaxSimpleIterations)
    } else if arguments::spells(arg, "minSimpleIterations"@, "min-simple-iterations"@) {
        Some(SolverOption::MinSimpleIterations)
    } else if arguments::spells(arg, "nNonOrthogonalCorrectors"@, "n-non-orthogonal-correctors"@) {
        Some(SolverOption::NonOrthogonalCorrectors)
    } else if arguments::spells(arg, "simpleConsistent"@, "simple-consistent"@) {
        Some(SolverOption::SimpleConsistent)
    } else if arguments::spells(arg, "noSimpleConsistent"@, "no-simple-consistent"@) {
        Some(SolverOption::NoSimpleConsistent)
    } else if arguments::spells(arg, "pRefCell"@, "p-ref-cell"@) {
        Some(SolverOption::PRefCell)
    } else if arguments::spells(arg, "pRefValue"@, "p-ref-value"@) {
        Some(SolverOption::PRefValue)
    } else if arguments::spells(arg, "velocityRelaxation"@, "velocity-relaxation"@) {
        Some(SolverOption::VelocityRelaxation)
    } else if arguments::spells(arg, "pressureRelaxation"@, "pressure-relaxation"@) {
        Some(SolverOption::PressureRelaxation)
    } else if arguments::spells(arg, "solveVerbose"@, "solve-verbose"@) {
        Some(SolverOption::SolveVerbose)
    } else if arguments::spells(arg, "solveResidualCsv"@, "solve-residual-csv"@) {
        Some(SolverOption::SolveResidualCsv)
    } else if arguments::spells(arg, "solveResidualPlot"@, "solve-residual-plot"@) {
        Some(SolverOption::SolveResidualPlot)
    } else if arguments::spells(arg, "solveReportJson"@, "solve-report-json"@) {
        Some(SolverOption::SolveReportJson)
    } else if arguments::spells(arg, "solveReportMarkdown"@, "solve-report-markdown"@) {
        Some(SolverOption::SolveReportMarkdown)
    } else if arguments::spells(arg, "writeFinalFields"@, "write-final-fields"@) {
        Some(SolverOption::WriteFinalFields)
    } else {
        None
    }
}

/// The option that an argument spells.
#[verifier::spinoff_prover]
pub fn option_of(arg: &str) -> (option: Option<SolverOption>)
    ensures
        option == option_named(arg@),
{
    if text::text_eq(arg, "-preflight") || text::text_eq(arg, "--preflight") || text::text_eq(
        arg,
        "-dryRun",
    ) || text::text_eq(arg, "--dry-run") {
        Some(SolverOption::Preflight)
    } else if arguments::is_spelled(arg, "case", "case") {
        Some(SolverOption::Case)
    } else if arguments::is_spelled(arg, "planJson", "plan-json") {
        Some(SolverOption::PlanJson)
    } else if arguments::is_spelled(arg, "runnerDryRun", "runner-dry-run") {
        Some(SolverOption::RunnerDryRun)
    } else if arguments::is_spelled(arg, "maxRunnerSteps", "max-runner-steps") {
        Some(SolverOption::MaxRunnerSteps)
    } else if arguments::is_spelled(arg, "solveScalarDiffusion", "solve-scalar-diffusion") {
        Some(SolverOption::SolveScalarDiffusion)
    } else if arguments::is_spelled(arg, "solvePoiseuille", "solve-poiseuille") {
        Some(SolverOption::SolvePoiseuille)
    } else if arguments::is_spelled(arg, "solveLaminarSimple", "solve-laminar-simple") {
        Some(SolverOption::SolveLaminarSimple)
    } else if arguments::is_spelled(arg, "diffusivity", "diffusivity") {
        Some(SolverOption::Diffusivity)
    } else if arguments::is_spelled(arg, "source", "source") {
        Some(SolverOption::Source)
    } else if arguments::is_spelled(arg, "pressureDrop", "pressure-drop") {
        Some(SolverOption::PressureDrop)
    } else if arguments::is_spelled(arg, "rho", "rho") {
        Some(SolverOption::Rho)
    } else if arguments::is_spelled(arg, "mu", "mu") {
        Some(SolverOption::Mu)
    } else if arguments::is_spelled(arg, "length", "length") {
        Some(SolverOption::Length)
    } else if arguments::is_spelled(arg, "diameter", "diameter") {
        Some(SolverOption::Diameter)
    } else if arguments::is_spelled(arg, "wallPatch", "wall-patch") {
        Some(SolverOption::WallPatch)
    } else if arguments::is_spelled(arg, "linearSolver", "linear-solver") {
        Some(SolverOption::LinearSolver)
    } else if arguments::is_spelled(arg, "momentumLinearSolver", "momentum-linear-solver") {
        Some(SolverOption::MomentumLinearSolver)
    } else if arguments::is_spelled(arg, "pressureLinearSolver", "pressure-linear-solver") {
        Some(SolverOption::PressureLinearSolver)
    } else if arguments::is_spelled(arg, "momentumPreconditioner", "momentum-preconditioner") {
        Some(SolverOption::MomentumPreconditioner)
    } else if arguments::is_spelled(arg, "pressurePreconditioner", "pressure-preconditioner") {
        Some(SolverOption::PressurePreconditioner)
    } else if arguments::is_spelled(arg, "solveTolerance", "solve-tolerance") {
        Some(SolverOption::SolveTolerance)
    } else if arguments::is_spelled(arg, "maxIterations", "max-iterations") {
        Some(SolverOption::MaxIterations)
    } else if arguments::is_spelled(arg, "momentumSolveTolerance", "momentum-solve-tolerance") {
        Some(SolverOption::MomentumSolveTolerance)
    } else if arguments::is_spelled(arg, "pressureSolveTolerance", "pressure-solve-tolerance") {
        Some(SolverOption::PressureSolveTolerance)
    } else if arguments::is_spelled(arg, "momentumMaxIterations", "momentum-max-iterations") {
        Some(SolverOption::MomentumMaxIterations)
    } else if arguments::is_spelled(arg, "pressureMaxIterations", "pressure-max-iterations") {
        Some(SolverOption::PressureMaxIterations)
    } else if arguments::is_spelled(arg, "maxSimpleIterations", "max-simple-iterations") {
        Some(SolverOption::MaxSimpleIterations)
    } else if arguments::is_spelled(arg, "minSimpleIterations", "min-simple-iterations") {
        Some(SolverOption::MinSimpleIterations)
    } else if arguments::is_spelled(arg, "nNonOrthogonalCorrectors", "n-non-orthogonal-correctors") {
        Some(SolverOption::NonOrthogonalCorrectors)
    } else if arguments::is_spelled(arg, "simpleConsistent", "simple-consistent") {
        Some(SolverOption::SimpleConsistent)
    } else if arguments::is_spelled(arg, "noSimpleConsistent", "no-simple-consistent") {
        Some(SolverOption::NoSimpleConsistent)
    } else if arguments::is_spelled(arg, "pRefCell", "p-ref-cell") {
        Some(SolverOption::PRefCell)
    } else if arguments::is_spelled(arg, "pRefValue", "p-ref-value") {
        Some(SolverOption::PRefValue)
    } else if arguments::is_spelled(arg, "velocityRelaxation", "velocity-relaxation") {
        Some(SolverOption::VelocityRelaxation)
    } else if arguments::is_spelled(arg, "pressureRelaxation", "pressure-relaxation") {
        Some(SolverOption::PressureRelaxation)
    } else if arguments::is_spelled(arg, "solveVerbose", "solve-verbose") {
        Some(SolverOption::SolveVerbose)
    } else if arguments::is_spelled(arg, "solveResidualCsv", "solve-residual-csv") {
        Some(SolverOption::SolveResidualCsv)
    } else if arguments::is_spelled(arg, "solveResidualPlot", "solve-residual-plot") {
        Some(SolverOption::SolveResidualPlot)
    } else if arguments::is_spelled(arg, "solveReportJson", "solve-report-json") {
        Some(SolverOption::SolveReportJson)
    } else if arguments::is_spelled(arg, "solveReportMarkdown", "solve-report-markdown") {
        Some(SolverOption::SolveReportMarkdown)
    } else if arguments::is_spelled(arg, "writeFinalFields", "write-final-fields") {
        Some(SolverOption::WriteFinalFields)
    } else {
        None
    }
}

/// What stands behind an option.
pub open spec fn value_kind(option: SolverOption) -> ValueKind {
    match option {
        SolverOption::Case
        | SolverOption::PlanJson
        | SolverOption::SolveResidualCsv
        | SolverOption::SolveResidualPlot
        | SolverOption::SolveReportJson
        | SolverOption::SolveReportMarkdown
        | SolverOption::WriteFinalFields => ValueKind::Text,
        SolverOption::Preflight
        | SolverOption::RunnerDryRun
        | SolverOption::SolvePoiseuille
        | SolverOption::SolveLaminarSimple
        | SolverOption::NoSimpleConsistent
        | SolverOption::SolveVerbose => ValueKind::Nothing,
        SolverOption::MaxRunnerSteps
        | SolverOption::MaxIterations
        | SolverOption::MomentumMaxIterations
        | SolverOption::PressureMaxIterations
        | SolverOption::MaxSimpleIterations
        | SolverOption::MinSimpleIterations => ValueKind::PositiveCount,
        SolverOption::SolveScalarDiffusion => ValueKind::FieldName,
        SolverOption::Diffusivity
        | SolverOption::PressureDrop
        | SolverOption::Rho
        | SolverOption::Mu
        | SolverOption::Length
        | SolverOption::Diameter => ValueKind::Positive,
        SolverOption::Source
        | SolverOption::PRefValue => ValueKind::Finite,
        SolverOption::WallPatch => ValueKind::PatchName,
        SolverOption::LinearSolver
        | SolverOption::MomentumLinearSolver
        | SolverOption::PressureLinearSolver => ValueKind::Solver,
        SolverOption::MomentumPreconditioner
        | SolverOption::PressurePreconditioner => ValueKind::Preconditioner,
        SolverOption::SolveTolerance
        | SolverOption::MomentumSolveTolerance
        | SolverOption::PressureSolveTolerance => ValueKind::NonNegative,
        SolverOption::NonOrthogonalCorrectors
        | SolverOption::PRefCell => ValueKind::AnyCount,
        SolverOption::SimpleConsistent => ValueKind::Switch,
        SolverOption::VelocityRelaxation
        | SolverOption::PressureRelaxation => ValueKind::Relaxation,
    }
}

/// What stands behind an option.
pub fn value_kind_of(option: SolverOption) -> (out: ValueKind)
    ensures
        out == value_kind(option),
{
    match option {
        SolverOption::Case
        | SolverOption::PlanJson
        | SolverOption::SolveResidualCsv
        | SolverOption::SolveResidualPlot
        | SolverOption::SolveReportJson
        | SolverOption::SolveReportMarkdown
        | SolverOption::WriteFinalFields => ValueKind::Text,
        SolverOption::Preflight
        | SolverOption::RunnerDryRun
        | SolverOption::SolvePoiseuille
        | SolverOption::SolveLaminarSimple
        | SolverOption::NoSimpleConsistent
        | SolverOption::SolveVerbose => ValueKind::Nothing,
        SolverOption::MaxRunnerSteps
        | SolverOption::MaxIterations
        | SolverOption::MomentumMaxIterations
        | SolverOption::PressureMaxIterations
        | SolverOption::MaxSimpleIterations
        | SolverOption::MinSimpleIterations => ValueKind::PositiveCount,
        SolverOption::SolveScalarDiffusion => ValueKind::FieldName,
        SolverOption::Diffusivity
        | SolverOption::PressureDrop
        | SolverOption::Rho
        | SolverOption::Mu
        | SolverOption::Length
        | SolverOption::Diameter => ValueKind::Positive,
        SolverOption::Source
        | SolverOption::PRefValue => ValueKind::Finite,
        SolverOption::WallPatch => ValueKind::PatchName,
        SolverOption::LinearSolver
        | SolverOption::MomentumLinearSolver
        | SolverOption::PressureLinearSolver => ValueKind::Solver,
        SolverOption::MomentumPreconditioner
        | SolverOption::PressurePreconditioner => ValueKind::Preconditioner,
        SolverOption::SolveTolerance
        | SolverOption::MomentumSolveTolerance
        | SolverOption::PressureSolveTolerance => ValueKind::NonNegative,
        SolverOption::NonOrthogonalCorrectors
        | SolverOption::PRefCell => ValueKind::AnyCount,
        SolverOption::SimpleConsistent => ValueKind::Switch,
        SolverOption::VelocityRelaxation
        | SolverOption::PressureRelaxation => ValueKind::Relaxation,
    }
}

/// The solves that an option belongs to.
pub open spec fn group(option: SolverOption) -> OptionGroup {
    match option {
        SolverOption::Preflight
        | SolverOption::Case
        | SolverOption::PlanJson
        | SolverOption::RunnerDryRun
        | SolverOption::MaxRunnerSteps
        | SolverOption::SolveScalarDiffusion
        | SolverOption::SolvePoiseuille
        | SolverOption::SolveLaminarSimple => OptionGroup::General,
        SolverOption::Diffusivity
        | SolverOption::Source => OptionGroup::ScalarDiffusion,
        SolverOption::PressureDrop
        | SolverOption::Length
        | SolverOption::Diameter
        | SolverOption::WallPatch => OptionGroup::Poiseuille,
        SolverOption::Rho
        | SolverOption::MomentumLinearSolver
        | SolverOption::PressureLinearSolver
        | SolverOption::MomentumPreconditioner
        | SolverOption::PressurePreconditioner
        | SolverOption::MomentumSolveTolerance
        | SolverOption::PressureSolveTolerance
        | SolverOption::MomentumMaxIterations
        | SolverOption::PressureMaxIterations
        | SolverOption::MaxSimpleIterations
        | SolverOption::MinSimpleIterations
        | SolverOption::NonOrthogonalCorrectors
        | SolverOption::SimpleConsistent
        | SolverOption::NoSimpleConsistent
        | SolverOption::PRefCell
        | SolverOption::PRefValue
        | SolverOption::VelocityRelaxation
        | SolverOption::PressureRelaxation
        | SolverOption::SolveVerbose
        | SolverOption::SolveResidualCsv
        | SolverOption::SolveResidualPlot
        | SolverOption::SolveReportJson
        | SolverOption::SolveReportMarkdown
        | SolverOption::WriteFinalFields => OptionGroup::LaminarSimple,
        SolverOption::Mu => OptionGroup::SharedFlow,
        SolverOption::LinearSolver
        | SolverOption::SolveTolerance
        | SolverOption::MaxIterations => OptionGroup::LinearSolve,
    }
}

/// The solves that an option belongs to.
pub fn group_of(option: SolverOption) -> (out: OptionGroup)
    ensures
        out == group(option),
{
    match option {
        SolverOption::Preflight
        | SolverOption::Case
        | SolverOption::PlanJson
        | SolverOption::RunnerDryRun
        | SolverOption::MaxRunnerSteps
        | SolverOption::SolveScalarDiffusion
        | SolverOption::SolvePoiseuille
        | SolverOption::SolveLaminarSimple => OptionGroup::General,
        SolverOption::Diffusivity
        | SolverOption::Source => OptionGroup::ScalarDiffusion,
        SolverOption::PressureDrop
        | SolverOption::Length
        | SolverOption::Diameter
        | SolverOption::WallPatch => OptionGroup::Poiseuille,
        SolverOption::Rho
        | SolverOption::MomentumLinearSolver
        | SolverOption::PressureLinearSolver
        | SolverOption::MomentumPreconditioner
        | SolverOption::PressurePreconditioner
        | SolverOption::MomentumSolveTolerance
        | SolverOption::PressureSolveTolerance
        | SolverOption::MomentumMaxIterations
        | SolverOption::PressureMaxIterations
        | SolverOption::MaxSimpleIterations
        | SolverOption::MinSimpleIterations
        | SolverOption::NonOrthogonalCorrectors
        | SolverOption::SimpleConsistent
        | SolverOption::NoSimpleConsistent
        | SolverOption::PRefCell
        | SolverOption::PRefValue
        | SolverOption::VelocityRelaxation
        | SolverOption::PressureRelaxation
        | SolverOption::SolveVerbose
        | SolverOption::SolveResidualCsv
        | SolverOption::SolveResidualPlot
        | SolverOption::SolveReportJson
        | SolverOption::SolveReportMarkdown
        | SolverOption::WriteFinalFields => OptionGroup::LaminarSimple,
        SolverOption::Mu => OptionGroup::SharedFlow,
        SolverOption::LinearSolver
        | SolverOption::SolveTolerance
        | SolverOption::MaxIterations => OptionGroup::LinearSolve,
    }
}

/// The option as messages call it.
pub open spec fn label(option: SolverOption) -> Seq<char> {
    match option {
        SolverOption::Preflight => "--preflight"@,
        SolverOption::Case => "--case"@,
        SolverOption::PlanJson => "--planJson"@,
        SolverOption::RunnerDryRun => "--runnerDryRun"@,
        SolverOption::MaxRunnerSteps => "--maxRunnerSteps"@,
        SolverOption::SolveScalarDiffusion => "--solveScalarDiffusion"@,
        SolverOption::SolvePoiseuille => "--solvePoiseuille"@,
        SolverOption::SolveLaminarSimple => "--solveLaminarSimple"@,
        SolverOption::Diffusivity => "--diffusivity"@,
        SolverOption::Source => "--source"@,
        SolverOption::PressureDrop => "--pressureDrop"@,
        SolverOption::Rho => "--rho"@,
        SolverOption::Mu => "--mu"@,
        SolverOption::Length => "--length"@,
        SolverOption::Diameter => "--diameter"@,
        SolverOption::WallPatch => "--wallPatch"@,
        SolverOption::LinearSolver => "--linearSolver"@,
        SolverOption::MomentumLinearSolver => "--momentumLinearSolver"@,
        SolverOption::PressureLinearSolver => "--pressureLinearSolver"@,
        SolverOption::MomentumPreconditioner => "--momentumPreconditioner"@,
        SolverOption::PressurePreconditioner => "--pressurePreconditioner"@,
        SolverOption::SolveTolerance => "--solveTolerance"@,
        SolverOption::MaxIterations => "--maxIterations"@,
        SolverOption::MomentumSolveTolerance => "--momentumSolveTolerance"@,
        SolverOption::PressureSolveTolerance => "--pressureSolveTolerance"@,
        SolverOption::MomentumMaxIterations => "--momentumMaxIterations"@,
        SolverOption::PressureMaxIterations => "--pressureMaxIterations"@,
        SolverOption::MaxSimpleIterations => "--maxSimpleIterations"@,
        SolverOption::MinSimpleIterations => "--minSimpleIterations"@,
        SolverOption::NonOrthogonalCorrectors => "--nNonOrthogonalCorrectors"@,
        SolverOption::SimpleConsistent => "--simpleConsistent"@,
        SolverOption::NoSimpleConsistent => "--noSimpleConsistent"@,
        SolverOption::PRefCell => "--pRefCell"@,
        SolverOption::PRefValue => "--pRefValue"@,
        SolverOption::VelocityRelaxation => "--velocityRelaxation"@,
        SolverOption::PressureRelaxation => "--pressureRelaxation"@,
        SolverOption::SolveVerbose => "--solveVerbose"@,
        SolverOption::SolveResidualCsv => "--solveResidualCsv"@,
        SolverOption::SolveResidualPlot => "--solveResidualPlot"@,
        SolverOption::SolveReportJson => "--solveReportJson"@,
        SolverOption::SolveReportMarkdown => "--solveReportMarkdown"@,
        SolverOption::WriteFinalFields => "--writeFinalFields"@,
    }
}

/// The option as messages call it.
pub fn label_of(option: SolverOption) -> (out: &'static str)
    ensures
        out@ == label(option),
{
    match option {
        SolverOption::Preflight => "--preflight",
        SolverOption::Case => "--case",
        SolverOption::PlanJson => "--planJson",
        SolverOption::RunnerDryRun => "--runnerDryRun",
        SolverOption::MaxRunnerSteps => "--maxRunnerSteps",
        SolverOption::SolveScalarDiffusion => "--solveScalarDiffusion",
        SolverOption::SolvePoiseuille => "--solvePoiseuille",
        SolverOption::SolveLaminarSimple => "--solveLaminarSimple",
        SolverOption::Diffusivity => "--diffusivity",
        SolverOption::Source => "--source",
        SolverOption::PressureDrop => "--pressureDrop",
        SolverOption::Rho => "--rho",
        SolverOption::Mu => "--mu",
        SolverOption::Length => "--length",
        SolverOption::Diameter => "--diameter",
        SolverOption::WallPatch => "--wallPatch",
        SolverOption::LinearSolver => "--linearSolver",
        SolverOption::MomentumLinearSolver => "--momentumLinearSolver",
        SolverOption::PressureLinearSolver => "--pressureLinearSolver",
        SolverOption::MomentumPreconditioner => "--momentumPreconditioner",
        SolverOption::PressurePreconditioner => "--pressurePreconditioner",
        SolverOption::SolveTolerance => "--solveTolerance",
        SolverOption::MaxIterations => "--maxIterations",
        SolverOption::MomentumSolveTolerance => "--momentumSolveTolerance",
        SolverOption::PressureSolveTolerance => "--pressureSolveTolerance",
        SolverOption::MomentumMaxIterations => "--momentumMaxIterations",
        SolverOption::PressureMaxIterations => "--pressureMaxIterations",
        SolverOption::MaxSimpleIterations => "--maxSimpleIterations",
        SolverOption::MinSimpleIterations => "--minSimpleIterations",
        SolverOption::NonOrthogonalCorrectors => "--nNonOrthogonalCorrectors",
        SolverOption::SimpleConsistent => "--simpleConsistent",
        SolverOption::NoSimpleConsistent => "--noSimpleConsistent",
        SolverOption::PRefCell => "--pRefCell",
        SolverOption::PRefValue => "--pRefValue",
        SolverOption::VelocityRelaxation => "--velocityRelaxation",
        SolverOption::PressureRelaxation => "--pressureRelaxation",
        SolverOption::SolveVerbose => "--solveVerbose",
        SolverOption::SolveResidualCsv => "--solveResidualCsv",
        SolverOption::SolveResidualPlot => "--solveResidualPlot",
        SolverOption::SolveReportJson => "--solveReportJson",
        SolverOption::SolveReportMarkdown => "--solveReportMarkdown",
        SolverOption::WriteFinalFields => "--writeFinalFields",
    }
}

/// What is said where the value of an option is missing; of an option without a value, nothing.
pub open spec fn missing(option: SolverOption) -> Seq<char> {
    match option {
        SolverOption::Preflight
        | SolverOption::RunnerDryRun
        | SolverOption::SolvePoiseuille
        | SolverOption::SolveLaminarSimple
        | SolverOption::SimpleConsistent
        | SolverOption::NoSimpleConsistent
        | SolverOption::SolveVerbose => ""@,
        SolverOption::Case => "-case requires a directory"@,
        SolverOption::PlanJson => "--planJson requires a file path"@,
        SolverOption::MaxRunnerSteps => "--maxRunnerSteps requires a positive integer"@,
        SolverOption::SolveScalarDiffusion => "--solveScalarDiffusion requires a field name"@,
        SolverOption::Diffusivity => "--diffusivity requires a positive number"@,
        SolverOption::Source => "--source requires a finite number"@,
        SolverOption::PressureDrop => "--pressureDrop requires a positive pressure drop in Pa"@,
        SolverOption::Rho => "--rho requires a positive density in kg/m3"@,
        SolverOption::Mu => "--mu requires a positive dynamic viscosity in Pa s"@,
        SolverOption::Length => "--length requires a positive pipe length in m"@,
        SolverOption::Diameter => "--diameter requires a positive pipe diameter in m"@,
        SolverOption::WallPatch => "--wallPatch requires a patch name"@,
        SolverOption::LinearSolver => "--linearSolver requires 'bicgstab', 'gaussSeidel', 'cg', 'pcg', or 'jacobi'"@,
        SolverOption::MomentumLinearSolver => "--momentumLinearSolver requires 'bicgstab', 'gaussSeidel', 'cg', 'pcg', or 'jacobi'"@,
        SolverOption::PressureLinearSolver => "--pressureLinearSolver requires 'bicgstab', 'gaussSeidel', 'cg', 'pcg', or 'jacobi'"@,
        SolverOption::MomentumPreconditioner => "--momentumPreconditioner requires 'none', 'diagonal', 'DIC', or 'incompleteCholesky'"@,
        SolverOption::PressurePreconditioner => "--pressurePreconditioner requires 'none', 'diagonal', 'DIC', or 'incompleteCholesky'"@,
        SolverOption::SolveTolerance => "--solveTolerance requires a non-negative number"@,
        SolverOption::MaxIterations => "--maxIterations requires a positive integer"@,
        SolverOption::MomentumSolveTolerance => "--momentumSolveTolerance requires a non-negative number"@,
        SolverOption::PressureSolveTolerance => "--pressureSolveTolerance requires a non-negative number"@,
        SolverOption::MomentumMaxIterations => "--momentumMaxIterations requires a positive integer"@,
        SolverOption::PressureMaxIterations => "--pressureMaxIterations requires a positive integer"@,
        SolverOption::MaxSimpleIterations => "--maxSimpleIterations requires a positive integer"@,
        SolverOption::MinSimpleIterations => "--minSimpleIterations requires a positive integer"@,
        SolverOption::NonOrthogonalCorrectors => "--nNonOrthogonalCorrectors requires a non-negative integer"@,
        SolverOption::PRefCell => "--pRefCell requires a non-negative integer"@,
        SolverOption::PRefValue => "--pRefValue requires a finite pressure value"@,
        SolverOption::VelocityRelaxation => "--velocityRelaxation requires a number in (0, 1]"@,
        SolverOption::PressureRelaxation => "--pressureRelaxation requires a number in (0, 1]"@,
        SolverOption::SolveResidualCsv => "--solveResidualCsv requires a file path"@,
        SolverOption::SolveResidualPlot => "--solveResidualPlot requires an output image path"@,
        SolverOption::SolveReportJson => "--solveReportJson requires a file path"@,
        SolverOption::SolveReportMarkdown => "--solveReportMarkdown requires a file path"@,
        SolverOption::WriteFinalFields => "--writeFinalFields requires an output directory"@,
    }
}

/// What is said where the value of an option is missing; of an option without a value, nothing.
pub fn missing_text(option: SolverOption) -> (out: &'static str)
    ensures
        out@ == missing(option),
{
    match option {
        SolverOption::Preflight
        | SolverOption::RunnerDryRun
        | SolverOption::SolvePoiseuille
        | SolverOption::SolveLaminarSimple
        | SolverOption::SimpleConsistent
        | SolverOption::NoSimpleConsistent
        | SolverOption::SolveVerbose => "",
        SolverOption::Case => "-case requires a directory",
        SolverOption::PlanJson => "--planJson requires a file path",
        SolverOption::MaxRunnerSteps => "--maxRunnerSteps requires a positive integer",
        SolverOption::SolveScalarDiffusion => "--solveScalarDiffusion requires a field name",
        SolverOption::Diffusivity => "--diffusivity requires a positive number",
        SolverOption::Source => "--source requires a finite number",
        SolverOption::PressureDrop => "--pressureDrop requires a positive pressure drop in Pa",
        SolverOption::Rho => "--rho requires a positive density in kg/m3",
        SolverOption::Mu => "--mu requires a positive dynamic viscosity in Pa s",
        SolverOption::Length => "--length requires a positive pipe length in m",
        SolverOption::Diameter => "--diameter requires a positive pipe diameter in m",
        SolverOption::WallPatch => "--wallPatch requires a patch name",
        SolverOption::LinearSolver => "--linearSolver requires 'bicgstab', 'gaussSeidel', 'cg', 'pcg', or 'jacobi'",
        SolverOption::MomentumLinearSolver => "--momentumLinearSolver requires 'bicgstab', 'gaussSeidel', 'cg', 'pcg', or 'jacobi'",
        SolverOption::PressureLinearSolver => "--pressureLinearSolver requires 'bicgstab', 'gaussSeidel', 'cg', 'pcg', or 'jacobi'",
        SolverOption::MomentumPreconditioner => "--momentumPreconditioner requires 'none', 'diagonal', 'DIC', or 'incompleteCholesky'",
        SolverOption::PressurePreconditioner => "--pressurePreconditioner requires 'none', 'diagonal', 'DIC', or 'incompleteCholesky'",
        SolverOption::SolveTolerance => "--solveTolerance requires a non-negative number",
        SolverOption::MaxIterations => "--maxIterations requires a positive integer",
        SolverOption::MomentumSolveTolerance => "--momentumSolveTolerance requires a non-negative number",
        SolverOption::PressureSolveTolerance => "--pressureSolveTolerance requires a non-negative number",
        SolverOption::MomentumMaxIterations => "--momentumMaxIterations requires a positive integer",
        SolverOption::PressureMaxIterations => "--pressureMaxIterations requires a positive integer",
        SolverOption::MaxSimpleIterations => "--maxSimpleIterations requires a positive integer",
        SolverOption::MinSimpleIterations => "--minSimpleIterations requires a positive integer",
        SolverOption::NonOrthogonalCorrectors => "--nNonOrthogonalCorrectors requires a non-negative integer",
        SolverOption::PRefCell => "--pRefCell requires a non-negative integer",
        SolverOption::PRefValue => "--pRefValue requires a finite pressure value",
        SolverOption::VelocityRelaxation => "--velocityRelaxation requires a number in (0, 1]",
        SolverOption::PressureRelaxation => "--pressureRelaxation requires a number in (0, 1]",
        SolverOption::SolveResidualCsv => "--solveResidualCsv requires a file path",
        SolverOption::SolveResidualPlot => "--solveResidualPlot requires an output image path",
        SolverOption::SolveReportJson => "--solveReportJson requires a file path",
        SolverOption::SolveReportMarkdown => "--solveReportMarkdown requires a file path",
        SolverOption::WriteFinalFields => "--writeFinalFields requires an output directory",
    }
}

/// The linear solver of the scalar equations that a word names.
pub open spec fn scalar_solver_named(word: Seq<char>) -> Result<
    ScalarDiffusionLinearSolver,
    Seq<char>,
> {
    if word == "cg"@ || word == "CG"@ || word == "pcg"@ || word == "PCG"@ {
        Ok(ScalarDiffusionLinearSolver::Cg)
    } else if word == "jacobi"@ || word == "Jacobi"@ {
        Ok(ScalarDiffusionLinearSolver::Jacobi)
    } else {
        Err("invalid --linearSolver value '"@ + word + "'; expected 'cg' or 'jacobi'"@)
    }
}

/// The word for a linear solver of the scalar equations.
pub open spec fn scalar_solver_name(solver: ScalarDiffusionLinearSolver) -> Seq<char> {
    match solver {
        ScalarDiffusionLinearSolver::Cg => "cg"@,
        ScalarDiffusionLinearSolver::Jacobi => "jacobi"@,
    }
}

impl ScalarDiffusionLinearSolver {
    /// The word for the solver.
    pub fn to_string(&self) -> (name: String)
        ensures
            name@ == scalar_solver_name(*self),
    {
        match self {
            ScalarDiffusionLinearSolver::Cg => "cg".to_string(),
            ScalarDiffusionLinearSolver::Jacobi => "jacobi".to_string(),
        }
    }
}

/// Reads the name of a linear solver of the scalar equations.
pub fn parse_scalar_diffusion_linear_solver(word: &str) -> (out: Result<
    ScalarDiffusionLinearSolver,
    String,
>)
    ensures
        match out {
            Ok(solver) => text::accepts(scalar_solver_named(word@), solver),
            Err(message) => text::refuses(scalar_solver_named(word@), message),
        },
{
    if text::text_eq(word, "cg") || text::text_eq(word, "CG") || text::text_eq(word, "pcg")
        || text::text_eq(word, "PCG") {
        Ok(ScalarDiffusionLinearSolver::Cg)
    } else if text::text_eq(word, "jacobi") || text::text_eq(word, "Jacobi") {
        Ok(ScalarDiffusionLinearSolver::Jacobi)
    } else {
        let mut message = "invalid --linearSolver value '".to_string();
        message.append(word);
        message.append("'; expected 'cg' or 'jacobi'");
        Err(message)
    }
}

/// A count as a value.
pub open spec fn counted(found: Result<nat, Seq<char>>) -> Result<ValueView, Seq<char>> {
    match found {
        Ok(count) => Ok(ValueView::Count(count)),
        Err(message) => Err(message),
    }
}

/// A number as a value.
pub open spec fn numbered(found: Result<RealView, Seq<char>>) -> Result<ValueView, Seq<char>> {
    match found {
        Ok(number) => Ok(ValueView::Number(number)),
        Err(message) => Err(message),
    }
}

/// The value that an argument gives an option.
pub open spec fn value_read(readings: Readings, option: SolverOption, value: Seq<char>) -> Result<
    ValueView,
    Seq<char>,
> {
    match value_kind(option) {
        ValueKind::Nothing => Ok(ValueView::Present),
        ValueKind::Switch => match arguments::truth_arg(label(option), value) {
            Ok(on) => Ok(ValueView::Switch(on)),
            Err(message) => Err(message),
        },
        ValueKind::Text => Ok(ValueView::Text(value)),
        ValueKind::FieldName => if text::trim(value).len() == 0 {
            Err(label(option) + " field name must not be empty"@)
        } else {
            Ok(ValueView::Text(value))
        },
        ValueKind::PatchName => if text::trim(value).len() == 0 {
            Err(label(option) + " patch name must not be empty"@)
        } else {
            Ok(ValueView::Text(value))
        },
        ValueKind::PositiveCount => counted(arguments::positive_count(label(option), value)),
        ValueKind::AnyCount => counted(arguments::count_arg(label(option), value)),
        ValueKind::Finite => numbered(arguments::finite_arg(readings, label(option), value)),
        ValueKind::Positive => numbered(arguments::positive_arg(readings, label(option), value)),
        ValueKind::NonNegative => numbered(
            arguments::non_negative_arg(readings, label(option), value),
        ),
        ValueKind::Relaxation => numbered(
            arguments::relaxation_arg(readings, label(option), value),
        ),
        ValueKind::Solver => match flow::solver_named(value) {
            Ok(solver) => Ok(ValueView::Solver(solver, value)),
            Err(message) => Err(message),
        },
        ValueKind::Preconditioner => match flow::preconditioner_named(value) {
            Ok(found) => Ok(ValueView::Preconditioner(found)),
            Err(message) => Err(message),
        },
    }
}

/// The setting at `at`, and how many arguments it is made of. A switch takes
/// the argument behind it unless that starts with a dash.
pub open spec fn setting_at(readings: Readings, args: Seq<Seq<char>>, at: int) -> Result<
    (SettingView, nat),
    Seq<char>,
> {
    match option_named(args[at]) {
        None => Err("unknown ferrumSolver option '"@ + args[at] + "'"@),
        Some(option) => if value_kind(option) == ValueKind::Nothing {
            Ok((SettingView { option, value: ValueView::Present }, 1))
        } else if value_kind(option) == ValueKind::Switch && !(at + 1 < args.len()
            && !"-"@.is_prefix_of(args[at + 1])) {
            Ok((SettingView { option, value: ValueView::Switch(true) }, 1))
        } else {
            match arguments::value_at(args, at, missing(option)) {
                Err(message) => Err(message),
                Ok(value) => match value_read(readings, option, value) {
                    Err(message) => Err(message),
                    Ok(found) => Ok((SettingView { option, value: found }, 2)),
                },
            }
        },
    }
}

/// The settings from `at` on.
pub open spec fn settings_from(readings: Readings, args: Seq<Seq<char>>, at: int) -> Result<
    Seq<SettingView>,
    Seq<char>,
>
    decreases args.len() - at,
{
    if at >= args.len() {
        Ok(Seq::empty())
    } else {
        match setting_at(readings, args, at) {
            Err(message) => Err(message),
            Ok((setting, used)) => if used == 0 {
                Ok(Seq::empty())
            } else {
                match settings_from(readings, args, at + used) {
                    Err(message) => Err(message),
                    Ok(rest) => Ok(seq![setting] + rest),
                }
            },
        }
    }
}

/// The last value of an option.
pub open spec fn last_of(settings: Seq<SettingView>, option: SolverOption) -> Option<ValueView>
    decreases settings.len(),
{
    if settings.len() == 0 {
        None
    } else if settings.last().option == option {
        Some(settings.last().value)
    } else {
        last_of(settings.drop_last(), option)
    }
}

/// The texts that an option was given, in their order.
pub open spec fn all_of(settings: Seq<SettingView>, option: SolverOption) -> Seq<Seq<char>>
    decreases settings.len(),
{
    if settings.len() == 0 {
        Seq::empty()
    } else {
        let earlier = all_of(settings.drop_last(), option);
        match settings.last().value {
            ValueView::Text(found) => if settings.last().option == option {
                earlier.push(found)
            } else {
                earlier
            },
            _ => earlier,
        }
    }
}

/// Whether an option of a group is set.
pub open spec fn sees(settings: Seq<SettingView>, wanted: OptionGroup) -> bool {
    exists|i: int| 0 <= i < settings.len() && group(#[trigger] settings[i].option) == wanted
}

/// Whether an option is set.
pub open spec fn is_set(settings: Seq<SettingView>, option: SolverOption) -> bool {
    last_of(settings, option) is Some
}

/// The last number of an option.
pub open spec fn last_number(settings: Seq<SettingView>, option: SolverOption) -> Option<RealView> {
    match last_of(settings, option) {
        Some(ValueView::Number(number)) => Some(number),
        _ => None,
    }
}

/// The last count of an option.
pub open spec fn last_count(settings: Seq<SettingView>, option: SolverOption) -> Option<nat> {
    match last_of(settings, option) {
        Some(ValueView::Count(count)) => Some(count),
        _ => None,
    }
}

/// The last text of an option.
pub open spec fn last_text(settings: Seq<SettingView>, option: SolverOption) -> Option<Seq<char>> {
    match last_of(settings, option) {
        Some(ValueView::Text(found)) => Some(found),
        _ => None,
    }
}

/// The last linear solver of an option.
pub open spec fn last_solver(settings: Seq<SettingView>, option: SolverOption) -> Option<
    LaminarSimpleLinearSolver,
> {
    match last_of(settings, option) {
        Some(ValueView::Solver(solver, _)) => Some(solver),
        _ => None,
    }
}

/// The last preconditioner of an option.
pub open spec fn last_preconditioner(settings: Seq<SettingView>, option: SolverOption) -> Option<
    LaminarSimplePreconditioner,
> {
    match last_of(settings, option) {
        Some(ValueView::Preconditioner(found)) => Some(found),
        _ => None,
    }
}

/// What the two switches of the consistent method say: the later one counts.
pub open spec fn consistent(settings: Seq<SettingView>) -> Option<bool>
    decreases settings.len(),
{
    if settings.len() == 0 {
        None
    } else {
        match settings.last() {
            SettingView { option: SolverOption::NoSimpleConsistent, .. } => Some(false),
            SettingView { option: SolverOption::SimpleConsistent, value: ValueView::Switch(on) } => {
                Some(on)
            },
            _ => consistent(settings.drop_last()),
        }
    }
}

/// The linear solver of the scalar equations.
pub open spec fn scalar_solver(settings: Seq<SettingView>) -> Result<
    ScalarDiffusionLinearSolver,
    Seq<char>,
> {
    match last_of(settings, SolverOption::LinearSolver) {
        Some(ValueView::Solver(_, word)) => scalar_solver_named(word),
        _ => Ok(ScalarDiffusionLinearSolver::Cg),
    }
}

/// A number, or `default` where there is none.
pub open spec fn number_or(found: Option<RealView>, default: RealView) -> RealView {
    match found {
        Some(number) => number,
        None => default,
    }
}

/// A count, or `default` where there is none.
pub open spec fn count_or(found: Option<nat>, default: nat) -> nat {
    match found {
        Some(count) => count,
        None => default,
    }
}

/// The tolerance of a linear solver where nothing else is asked for.
pub open spec fn default_tolerance() -> RealView {
    RealView {
        kind: RealKind::UpToOne,
        display: "0.0000000001"@,
        scientific: "1.000000e-10"@,
        percent: "0.000%"@,
        full: "1.0000000000000000e-10"@,
    }
}

/// The tolerance of the linear solver of the scalar equations.
pub open spec fn scalar_tolerance(settings: Seq<SettingView>) -> RealView {
    number_or(last_number(settings, SolverOption::SolveTolerance), default_tolerance())
}

/// The most iterations of the linear solver of the scalar equations.
pub open spec fn scalar_iterations(settings: Seq<SettingView>) -> nat {
    count_or(last_count(settings, SolverOption::MaxIterations), DEFAULT_MAX_ITERATIONS as nat)
}

/// The request to solve the diffusion of the field `field`.
pub open spec fn scalar_solve(
    settings: Seq<SettingView>,
    solver: ScalarDiffusionLinearSolver,
) -> Option<ScalarDiffusionSolveView> {
    match last_text(settings, SolverOption::SolveScalarDiffusion) {
        Some(field) => Some(
            ScalarDiffusionSolveView {
                field,
                diffusivity: number_or(
                    last_number(settings, SolverOption::Diffusivity),
                    reals::one(),
                ),
                source: number_or(last_number(settings, SolverOption::Source), reals::zero()),
                linear_solver: solver,
                tolerance: scalar_tolerance(settings),
                max_iterations: scalar_iterations(settings),
            },
        ),
        None => None,
    }
}

/// The request to solve the flow through a pipe.
pub open spec fn poiseuille_solve(
    settings: Seq<SettingView>,
    solver: ScalarDiffusionLinearSolver,
) -> Option<PoiseuilleSolveView> {
    if is_set(settings, SolverOption::SolvePoiseuille) {
        Some(
            PoiseuilleSolveView {
                pressure_drop: last_number(settings, SolverOption::PressureDrop),
                dynamic_viscosity: last_number(settings, SolverOption::Mu),
                length: last_number(settings, SolverOption::Length),
                diameter: last_number(settings, SolverOption::Diameter),
                wall_patches: all_of(settings, SolverOption::WallPatch),
                linear_solver: solver,
                tolerance: scalar_tolerance(settings),
                max_iterations: scalar_iterations(settings),
            },
        )
    } else {
        None
    }
}

/// The request to solve the laminar flow.
pub open spec fn laminar_solve(settings: Seq<SettingView>) -> Option<LaminarSimpleSolveView> {
    if is_set(settings, SolverOption::SolveLaminarSimple) {
        Some(
            LaminarSimpleSolveView {
                density: last_number(settings, SolverOption::Rho),
                dynamic_viscosity: last_number(settings, SolverOption::Mu),
                linear_solver: last_solver(settings, SolverOption::LinearSolver),
                momentum_linear_solver: last_solver(settings, SolverOption::MomentumLinearSolver),
                pressure_linear_solver: last_solver(settings, SolverOption::PressureLinearSolver),
                momentum_preconditioner: last_preconditioner(
                    settings,
                    SolverOption::MomentumPreconditioner,
                ),
                pressure_preconditioner: last_preconditioner(
                    settings,
                    SolverOption::PressurePreconditioner,
                ),
                linear_tolerance: last_number(settings, SolverOption::SolveTolerance),
                max_linear_iterations: last_count(settings, SolverOption::MaxIterations),
                momentum_linear_tolerance: last_number(
                    settings,
                    SolverOption::MomentumSolveTolerance,
                ),
                pressure_linear_tolerance: last_number(
                    settings,
                    SolverOption::PressureSolveTolerance,
                ),
                momentum_max_linear_iterations: last_count(
                    settings,
                    SolverOption::MomentumMaxIterations,
                ),
                pressure_max_linear_iterations: last_count(
                    settings,
                    SolverOption::PressureMaxIterations,
                ),
                max_simple_iterations: last_count(settings, SolverOption::MaxSimpleIterations),
                min_simple_iterations: last_count(settings, SolverOption::MinSimpleIterations),
                pressure_reference_cell: last_count(settings, SolverOption::PRefCell),
                pressure_reference_value: last_number(settings, SolverOption::PRefValue),
                non_orthogonal_correctors: last_count(
                    settings,
                    SolverOption::NonOrthogonalCorrectors,
                ),
                simple_consistent: consistent(settings),
                velocity_relaxation: last_number(settings, SolverOption::VelocityRelaxation),
                pressure_relaxation: last_number(settings, SolverOption::PressureRelaxation),
                solve_verbose: is_set(settings, SolverOption::SolveVerbose),
                solve_residual_csv: last_text(settings, SolverOption::SolveResidualCsv),
                solve_residual_plot: last_text(settings, SolverOption::SolveResidualPlot),
                report_json: last_text(settings, SolverOption::SolveReportJson),
                report_markdown: last_text(settings, SolverOption::SolveReportMarkdown),
                write_final_fields: last_text(settings, SolverOption::WriteFinalFields),
            },
        )
    } else {
        None
    }
}

/// What the settings ask of the solver: every option needs the solve that it
/// belongs to, and one command runs one solve.
pub open spec fn asked(settings: Seq<SettingView>) -> Result<SolverArgsView, Seq<char>> {
    let scalar = is_set(settings, SolverOption::SolveScalarDiffusion);
    let poiseuille = is_set(settings, SolverOption::SolvePoiseuille);
    let laminar = is_set(settings, SolverOption::SolveLaminarSimple);
    if !scalar && sees(settings, OptionGroup::ScalarDiffusion) {
        Err("scalar diffusion solve options require --solveScalarDiffusion <field>"@)
    } else if !poiseuille && sees(settings, OptionGroup::Poiseuille) {
        Err("Poiseuille solve options require --solvePoiseuille"@)
    } else if !poiseuille && !laminar && sees(settings, OptionGroup::SharedFlow) {
        Err("--mu requires --solvePoiseuille or --solveLaminarSimple"@)
    } else if (scalar || poiseuille) && scalar_solver(settings) is Err {
        Err(scalar_solver(settings)->Err_0)
    } else if !laminar && sees(settings, OptionGroup::LaminarSimple) {
        Err("Laminar SIMPLE solve options require --solveLaminarSimple"@)
    } else if !scalar && !poiseuille && !laminar && sees(settings, OptionGroup::LinearSolve) {
        Err(
            "linear solve options require --solveScalarDiffusion <field>, --solvePoiseuille, or --solveLaminarSimple"@,
        )
    } else if (scalar && poiseuille) || (scalar && laminar) || (poiseuille && laminar) {
        Err(
            "--solveScalarDiffusion, --solvePoiseuille, and --solveLaminarSimple cannot be combined in one command yet"@,
        )
    } else {
        let solver = match scalar_solver(settings) {
            Ok(solver) => solver,
            Err(_) => ScalarDiffusionLinearSolver::Cg,
        };
        Ok(
            SolverArgsView {
                case_dir: match last_text(settings, SolverOption::Case) {
                    Some(found) => found,
                    None => "."@,
                },
                plan_json: last_text(settings, SolverOption::PlanJson),
                runner_dry_run: is_set(settings, SolverOption::RunnerDryRun),
                max_runner_steps: count_or(
                    last_count(settings, SolverOption::MaxRunnerSteps),
                    DEFAULT_RUNNER_STEPS as nat,
                ),
                scalar_diffusion_solve: scalar_solve(settings, solver),
                poiseuille_solve: poiseuille_solve(settings, solver),
                laminar_simple_solve: laminar_solve(settings),
            },
        )
    }
}

/// What a command line asks of the solver.
pub open spec fn solver_args(readings: Readings, args: Seq<Seq<char>>) -> Result<
    SolverArgsView,
    Seq<char>,
> {
    match settings_from(readings, args, 0) {
        Ok(settings) => asked(settings),
        Err(message) => Err(message),
    }
}

/// An accepted command line runs at most one solve.
pub proof fn one_solve_at_most(readings: Readings, args: Seq<Seq<char>>)
    requires
        solver_args(readings, args) is Ok,
    ensures
        ({
            let asked_for = solver_args(readings, args)->Ok_0;
            &&& !(asked_for.scalar_diffusion_solve is Some && asked_for.poiseuille_solve is Some)
            &&& !(asked_for.scalar_diffusion_solve is Some && asked_for.laminar_simple_solve is Some)
            &&& !(asked_for.poiseuille_solve is Some && asked_for.laminar_simple_solve is Some)
        }),
{
}

/// Settings in front of a result.
spec fn behind(earlier: Seq<SettingView>, rest: Result<Seq<SettingView>, Seq<char>>) -> Result<
    Seq<SettingView>,
    Seq<char>,
> {
    match rest {
        Ok(found) => Ok(earlier + found),
        Err(message) => Err(message),
    }
}

/// The value that an argument gives an option.
pub fn read_value(readings: &Readings, option: SolverOption, value: &str) -> (out: Result<
    SettingValue,
    String,
>)
    ensures
        match out {
            Ok(found) => text::accepts(value_read(*readings, option, value@), found@),
            Err(message) => text::refuses(value_read(*readings, option, value@), message),
        },
{
    let label = label_of(option);
    match value_kind_of(option) {
        ValueKind::Nothing => Ok(SettingValue::Present),
        ValueKind::Switch => Ok(SettingValue::Switch(arguments::parse_bool_arg(label, value)?)),
        ValueKind::Text => Ok(SettingValue::Text(value.to_string())),
        ValueKind::FieldName => {
            if text::is_blank(value) {
                let mut message = label.to_string();
                message.append(" field name must not be empty");
                Err(message)
            } else {
                Ok(SettingValue::Text(value.to_string()))
            }
        },
        ValueKind::PatchName => {
            if text::is_blank(value) {
                let mut message = label.to_string();
                message.append(" patch name must not be empty");
                Err(message)
            } else {
                Ok(SettingValue::Text(value.to_string()))
            }
        },
        ValueKind::PositiveCount => Ok(
            SettingValue::Count(arguments::parse_positive_usize_arg(label, value)?),
        ),
        ValueKind::AnyCount => Ok(
            SettingValue::Count(arguments::parse_non_negative_usize_arg(label, value)?),
        ),
        ValueKind::Finite => Ok(
            SettingValue::Number(arguments::parse_finite_f64_arg(readings, label, value)?),
        ),
        ValueKind::Positive => Ok(
            SettingValue::Number(arguments::parse_positive_f64_arg(readings, label, value)?),
        ),
        ValueKind::NonNegative => Ok(
            SettingValue::Number(arguments::parse_non_negative_f64_arg(readings, label, value)?),
        ),
        ValueKind::Relaxation => Ok(
            SettingValue::Number(arguments::parse_relaxation_arg(readings, label, value)?),
        ),
        ValueKind::Solver => Ok(
            SettingValue::Solver(flow::parse_openfoam_laminar_solver(value)?, value.to_string()),
        ),
        ValueKind::Preconditioner => Ok(
            SettingValue::Preconditioner(flow::parse_openfoam_laminar_preconditioner(value)?),
        ),
    }
}

fn read_setting(readings: &Readings, args: &Vec<String>, at: usize) -> (out: Result<
    (Setting, usize),
    String,
>)
    requires
        at < args@.len(),
    ensures
        match out {
            Ok((setting, used)) => 1 <= used <= 2 && at + used <= args@.len() && text::accepts(
                setting_at(*readings, text::texts(args@), at as int),
                (setting@, used as nat),
            ),
            Err(message) => text::refuses(
                setting_at(*readings, text::texts(args@), at as int),
                message,
            ),
        },
{
    let count: usize = args.len();
    let arg = args[at].as_str();
    match option_of(arg) {
        None => {
            let mut message = "unknown ferrumSolver option '".to_string();
            message.append(arg);
            message.append("'");
            Err(message)
        },
        Some(option) => {
            let kind = value_kind_of(option);
            if kind == ValueKind::Nothing {
                return Ok((Setting { option, value: SettingValue::Present }, 1));
            }
            if kind == ValueKind::Switch && !(at + 1 < count && !text::starts_with(
                args[at + 1].as_str(),
                "-",
            )) {
                return Ok((Setting { option, value: SettingValue::Switch(true) }, 1));
            }
            let value = arguments::value_behind(args, at, missing_text(option))?;
            let found = read_value(readings, option, value.as_str())?;
            Ok((Setting { option, value: found }, 2))
        },
    }
}

/// The settings of a command line.
pub fn read_settings(readings: &Readings, args: &Vec<String>) -> (out: Result<Vec<Setting>, String>)
    ensures
        match out {
            Ok(settings) => text::accepts(
                settings_from(*readings, text::texts(args@), 0),
                setting_views(settings@),
            ),
            Err(message) => text::refuses(
                settings_from(*readings, text::texts(args@), 0),
                message,
            ),
        },
{
    let ghost given = text::texts(args@);
    let ghost wanted = settings_from(*readings, given, 0);
    let mut settings: Vec<Setting> = Vec::new();
    let mut at: usize = 0;
    proof {
        assert(wanted == behind(setting_views(settings@), wanted)) by {
            if let Ok(found) = wanted {
                assert(setting_views(settings@) + found =~= found);
            }
        }
    }
    while at < args.len()
        invariant
            at <= args@.len(),
            given == text::texts(args@),
            wanted == settings_from(*readings, given, 0),
            wanted == behind(
                setting_views(settings@),
                settings_from(*readings, given, at as int),
            ),
        decreases args@.len() - at,
    {
        let (setting, used) = read_setting(readings, args, at)?;
        let ghost earlier = setting_views(settings@);
        let ghost rest = settings_from(*readings, given, at + used);
        let ghost added = setting@;
        settings.push(setting);
        proof {
            assert(setting_views(settings@) =~= earlier.push(added));
            if let Ok(found) = rest {
                assert(earlier + (seq![added] + found) =~= earlier.push(added) + found);
            }
        }
        at += used;
    }
    assert(setting_views(settings@) + Seq::<SettingView>::empty() =~= setting_views(settings@));
    Ok(settings)
}

fn find_last(settings: &Vec<Setting>, option: SolverOption) -> (found: Option<&SettingValue>)
    ensures
        match found {
            Some(value) => last_of(setting_views(settings@), option) == Some(value@),
            None => last_of(setting_views(settings@), option) is None,
        },
{
    let ghost all = setting_views(settings@);
    let mut at: usize = settings.len();
    assert(all.take(at as int) =~= all);
    while at > 0
        invariant
            at <= settings@.len(),
            all == setting_views(settings@),
            last_of(all, option) == last_of(all.take(at as int), option),
        decreases at,
    {
        assert(all.take(at as int).drop_last() =~= all.take(at - 1));
        if settings[at - 1].option == option {
            return Some(&settings[at - 1].value);
        }
        at -= 1;
    }
    None
}

fn holds(settings: &Vec<Setting>, option: SolverOption) -> (yes: bool)
    ensures
        yes == is_set(setting_views(settings@), option),
{
    find_last(settings, option).is_some()
}

fn seen(settings: &Vec<Setting>, wanted: OptionGroup) -> (yes: bool)
    ensures
        yes == sees(setting_views(settings@), wanted),
{
    let ghost all = setting_views(settings@);
    let mut at: usize = 0;
    while at < settings.len()
        invariant
            at <= settings@.len(),
            all == setting_views(settings@),
            forall|i: int| 0 <= i < at ==> group(#[trigger] all[i].option) != wanted,
        decreases settings@.len() - at,
    {
        if group_of(settings[at].option) == wanted {
            assert(group(all[at as int].option) == wanted);
            return true;
        }
        at += 1;
    }
    false
}

fn number_in(settings: &Vec<Setting>, option: SolverOption) -> (found: Option<Real>)
    ensures
        reals::opt_real(found) == last_number(setting_views(settings@), option),
{
    match find_last(settings, option) {
        Some(SettingValue::Number(number)) => Some(number.copy()),
        _ => None,
    }
}

fn count_in(settings: &Vec<Setting>, option: SolverOption) -> (found: Option<usize>)
    ensures
        opt_count(found) == last_count(setting_views(settings@), option),
{
    match find_last(settings, option) {
        Some(SettingValue::Count(count)) => Some(*count),
        _ => None,
    }
}

fn text_in(settings: &Vec<Setting>, option: SolverOption) -> (found: Option<String>)
    ensures
        text::opt_text(found) == last_text(setting_views(settings@), option),
{
    match find_last(settings, option) {
        Some(SettingValue::Text(inner)) => Some(inner.clone()),
        _ => None,
    }
}

fn solver_in(settings: &Vec<Setting>, option: SolverOption) -> (found: Option<
    LaminarSimpleLinearSolver,
>)
    ensures
        found == last_solver(setting_views(settings@), option),
{
    match find_last(settings, option) {
        Some(SettingValue::Solver(solver, _)) => Some(*solver),
        _ => None,
    }
}

fn preconditioner_in(settings: &Vec<Setting>, option: SolverOption) -> (found: Option<
    LaminarSimplePreconditioner,
>)
    ensures
        found == last_preconditioner(setting_views(settings@), option),
{
    match find_last(settings, option) {
        Some(SettingValue::Preconditioner(inner)) => Some(*inner),
        _ => None,
    }
}

fn consistent_in(settings: &Vec<Setting>) -> (found: Option<bool>)
    ensures
        found == consistent(setting_views(settings@)),
{
    let ghost all = setting_views(settings@);
    let mut at: usize = settings.len();
    assert(all.take(at as int) =~= all);
    while at > 0
        invariant
            at <= settings@.len(),
            all == setting_views(settings@),
            consistent(all) == consistent(all.take(at as int)),
        decreases at,
    {
        assert(all.take(at as int).drop_last() =~= all.take(at - 1));
        assert(all.take(at as int).last() == settings@[at - 1]@);
        if settings[at - 1].option == SolverOption::NoSimpleConsistent {
            return Some(false);
        }
        if settings[at - 1].option == SolverOption::SimpleConsistent {
            if let SettingValue::Switch(on) = &settings[at - 1].value {
                return Some(*on);
            }
        }
        at -= 1;
    }
    None
}

fn texts_in(settings: &Vec<Setting>, option: SolverOption) -> (found: Vec<String>)
    ensures
        text::texts(found@) == all_of(setting_views(settings@), option),
{
    let ghost all = setting_views(settings@);
    let mut found: Vec<String> = Vec::new();
    let mut at: usize = 0;
    assert(text::texts(found@) =~= all_of(all.take(0), option));
    while at < settings.len()
        invariant
            at <= settings@.len(),
            all == setting_views(settings@),
            text::texts(found@) == all_of(all.take(at as int), option),
        decreases settings@.len() - at,
    {
        assert(all.take(at + 1).drop_last() =~= all.take(at as int));
        assert(all.take(at + 1).last() == settings@[at as int]@);
        let ghost earlier = text::texts(found@);
        if settings[at].option == option {
            if let SettingValue::Text(inner) = &settings[at].value {
                found.push(inner.clone());
                assert(text::texts(found@) =~= earlier.push(inner@));
            }
        }
        at += 1;
    }
    assert(all.take(at as int) =~= all);
    found
}

fn scalar_solver_in(settings: &Vec<Setting>) -> (out: Result<ScalarDiffusionLinearSolver, String>)
    ensures
        match out {
            Ok(solver) => text::accepts(scalar_solver(setting_views(settings@)), solver),
            Err(message) => text::refuses(scalar_solver(setting_views(settings@)), message),
        },
{
    match find_last(settings, SolverOption::LinearSolver) {
        Some(SettingValue::Solver(_, word)) => parse_scalar_diffusion_linear_solver(word.as_str()),
        _ => Ok(ScalarDiffusionLinearSolver::Cg),
    }
}

fn number_or_default(found: Option<Real>, default: Real) -> (number: Real)
    ensures
        number@ == number_or(reals::opt_real(found), default@),
{
    match found {
        Some(inner) => inner,
        None => default,
    }
}

fn count_or_default(found: Option<usize>, default: usize) -> (count: usize)
    ensures
        count as nat == count_or(opt_count(found), default as nat),
{
    match found {
        Some(inner) => inner,
        None => default,
    }
}

fn tolerance_in(settings: &Vec<Setting>) -> (number: Real)
    ensures
        number@ == scalar_tolerance(setting_views(settings@)),
{
    number_or_default(
        number_in(settings, SolverOption::SolveTolerance),
        Real {
            kind: RealKind::UpToOne,
            display: "0.0000000001".to_string(),
            scientific: "1.000000e-10".to_string(),
            percent: "0.000%".to_string(),
            full: "1.0000000000000000e-10".to_string(),
        },
    )
}

fn iterations_in(settings: &Vec<Setting>) -> (count: usize)
    ensures
        count as nat == scalar_iterations(setting_views(settings@)),
{
    count_or_default(count_in(settings, SolverOption::MaxIterations), DEFAULT_MAX_ITERATIONS)
}

fn scalar_solve_in(
    settings: &Vec<Setting>,
    solver: ScalarDiffusionLinearSolver,
) -> (solve: Option<ScalarDiffusionSolveArgs>)
    ensures
        match solve {
            Some(found) => scalar_solve(setting_views(settings@), solver) == Some(found@),
            None => scalar_solve(setting_views(settings@), solver) is None,
        },
{
    match text_in(settings, SolverOption::SolveScalarDiffusion) {
        Some(field) => Some(
            ScalarDiffusionSolveArgs {
                field,
                diffusivity: number_or_default(
                    number_in(settings, SolverOption::Diffusivity),
                    Real::one(),
                ),
                source: number_or_default(number_in(settings, SolverOption::Source), Real::zero()),
                linear_solver: solver,
                tolerance: tolerance_in(settings),
                max_iterations: iterations_in(settings),
            },
        ),
        None => None,
    }
}

fn poiseuille_solve_in(
    settings: &Vec<Setting>,
    solver: ScalarDiffusionLinearSolver,
) -> (solve: Option<PoiseuilleSolveArgs>)
    ensures
        match solve {
            Some(found) => poiseuille_solve(setting_views(settings@), solver) == Some(found@),
            None => poiseuille_solve(setting_views(settings@), solver) is None,
        },
{
    if !holds(settings, SolverOption::SolvePoiseuille) {
        return None;
    }
    Some(
        PoiseuilleSolveArgs {
            pressure_drop: number_in(settings, SolverOption::PressureDrop),
            dynamic_viscosity: number_in(settings, SolverOption::Mu),
            length: number_in(settings, SolverOption::Length),
            diameter: number_in(settings, SolverOption::Diameter),
            wall_patches: texts_in(settings, SolverOption::WallPatch),
            linear_solver: solver,
            tolerance: tolerance_in(settings),
            max_iterations: iterations_in(settings),
        },
    )
}

fn laminar_solve_in(settings: &Vec<Setting>) -> (solve: Option<LaminarSimpleSolveArgs>)
    ensures
        match solve {
            Some(found) => laminar_solve(setting_views(settings@)) == Some(found@),
            None => laminar_solve(setting_views(settings@)) is None,
        },
{
    if !holds(settings, SolverOption::SolveLaminarSimple) {
        return None;
    }
    Some(
        LaminarSimpleSolveArgs {
            density: number_in(settings, SolverOption::Rho),
            dynamic_viscosity: number_in(settings, SolverOption::Mu),
            linear_solver: solver_in(settings, SolverOption::LinearSolver),
            momentum_linear_solver: solver_in(settings, SolverOption::MomentumLinearSolver),
            pressure_linear_solver: solver_in(settings, SolverOption::PressureLinearSolver),
            momentum_preconditioner: preconditioner_in(
                settings,
                SolverOption::MomentumPreconditioner,
            ),
            pressure_preconditioner: preconditioner_in(
                settings,
                SolverOption::PressurePreconditioner,
            ),
            linear_tolerance: number_in(settings, SolverOption::SolveTolerance),
            max_linear_iterations: count_in(settings, SolverOption::MaxIterations),
            momentum_linear_tolerance: number_in(settings, SolverOption::MomentumSolveTolerance),
            pressure_linear_tolerance: number_in(settings, SolverOption::PressureSolveTolerance),
            momentum_max_linear_iterations: count_in(settings, SolverOption::MomentumMaxIterations),
            pressure_max_linear_iterations: count_in(settings, SolverOption::PressureMaxIterations),
            max_simple_iterations: count_in(settings, SolverOption::MaxSimpleIterations),
            min_simple_iterations: count_in(settings, SolverOption::MinSimpleIterations),
            pressure_reference_cell: count_in(settings, SolverOption::PRefCell),
            pressure_reference_value: number_in(settings, SolverOption::PRefValue),
            non_orthogonal_correctors: count_in(settings, SolverOption::NonOrthogonalCorrectors),
            simple_consistent: consistent_in(settings),
            velocity_relaxation: number_in(settings, SolverOption::VelocityRelaxation),
            pressure_relaxation: number_in(settings, SolverOption::PressureRelaxation),
            solve_verbose: holds(settings, SolverOption::SolveVerbose),
            solve_residual_csv: text_in(settings, SolverOption::SolveResidualCsv),
            solve_residual_plot: text_in(settings, SolverOption::SolveResidualPlot),
            report_json: text_in(settings, SolverOption::SolveReportJson),
            report_markdown: text_in(settings, SolverOption::SolveReportMarkdown),
            write_final_fields: text_in(settings, SolverOption::WriteFinalFields),
        },
    )
}

fn asked_in(settings: &Vec<Setting>) -> (out: Result<SolverArgs, String>)
    ensures
        match out {
            Ok(found) => text::accepts(asked(setting_views(settings@)), found@),
            Err(message) => text::refuses(asked(setting_views(settings@)), message),
        },
{
    let scalar = holds(settings, SolverOption::SolveScalarDiffusion);
    let poiseuille = holds(settings, SolverOption::SolvePoiseuille);
    let laminar = holds(settings, SolverOption::SolveLaminarSimple);
    if !scalar && seen(settings, OptionGroup::ScalarDiffusion) {
        return Err(
            "scalar diffusion solve options require --solveScalarDiffusion <field>".to_string(),
        );
    }
    if !poiseuille && seen(settings, OptionGroup::Poiseuille) {
        return Err("Poiseuille solve options require --solvePoiseuille".to_string());
    }
    if !poiseuille && !laminar && seen(settings, OptionGroup::SharedFlow) {
        return Err("--mu requires --solvePoiseuille or --solveLaminarSimple".to_string());
    }
    let solver = match scalar_solver_in(settings) {
        Ok(solver) => solver,
        Err(message) => {
            if scalar || poiseuille {
                return Err(message);
            }
            ScalarDiffusionLinearSolver::Cg
        },
    };
    if !laminar && seen(settings, OptionGroup::LaminarSimple) {
        return Err("Laminar SIMPLE solve options require --solveLaminarSimple".to_string());
    }
    if !scalar && !poiseuille && !laminar && seen(settings, OptionGroup::LinearSolve) {
        return Err(
            "linear solve options require --solveScalarDiffusion <field>, --solvePoiseuille, or --solveLaminarSimple".to_string(),
        );
    }
    if (scalar && poiseuille) || (scalar && laminar) || (poiseuille && laminar) {
        return Err(
            "--solveScalarDiffusion, --solvePoiseuille, and --solveLaminarSimple cannot be combined in one command yet".to_string(),
        );
    }
    let case_dir = match text_in(settings, SolverOption::Case) {
        Some(found) => found,
        None => ".".to_string(),
    };
    Ok(
        SolverArgs {
            case_dir,
            plan_json: text_in(settings, SolverOption::PlanJson),
            runner_dry_run: holds(settings, SolverOption::RunnerDryRun),
            max_runner_steps: count_or_default(
                count_in(settings, SolverOption::MaxRunnerSteps),
                DEFAULT_RUNNER_STEPS,
            ),
            scalar_diffusion_solve: scalar_solve_in(settings, solver),
            poiseuille_solve: poiseuille_solve_in(settings, solver),
            laminar_simple_solve: laminar_solve_in(settings),
        },
    )
}

/// Reads the command line of the solver; `readings` says what its texts
/// denote as numbers.
pub fn parse_solver_args(args: &Vec<String>, readings: &Readings) -> (out: Result<
    SolverArgs,
    String,
>)
    ensures
        match out {
            Ok(found) => text::accepts(solver_args(*readings, text::texts(args@)), found@),
            Err(message) => text::refuses(solver_args(*readings, text::texts(args@)), message),
        },
{
    let settings = read_settings(readings, args)?;
    asked_in(&settings)
}

} // verus!
