//! The settings of a laminar SIMPLE run and of a pipe flow, from the command
//! line and the dictionaries of the case.

use crate::flow::{LaminarSimpleLinearSolver, LaminarSimplePreconditioner};
use crate::lookup;
use crate::plan::{SolverCasePlan, SolverNumericsDictionaryPlan};
use crate::poiseuille::PoiseuilleOptions;
use crate::reals;
use crate::reals::{Real, RealKind, RealView, Readings};
use crate::schemes;
use crate::schemes::LaminarSimpleSchemes;
use crate::simple::LaminarSimpleOptions;
use crate::solver_args::{
    LaminarSimpleSolveArgs, LaminarSimpleSolveView, PoiseuilleSolveArgs, PoiseuilleSolveView,
};
use crate::text;
use vstd::prelude::*;

verus! {

/// How many iterations a linear solver makes at most where neither the
/// command line nor the case says.
pub const OPENFOAM_DEFAULT_LDU_MAX_ITERATIONS: usize = 1000;

/// The tolerance of a linear solver where neither the command line nor the
/// case says.
pub open spec fn default_tolerance() -> RealView {
    RealView {
        kind: RealKind::UpToOne,
        display: "0.000001"@,
        scientific: "1.000000e-6"@,
        percent: "0.000%"@,
        full: "9.9999999999999995e-7"@,
    }
}

/// The mathematical view of a [`LaminarSimpleOptions`].
pub struct OptionsView {
    pub density: RealView,
    pub dynamic_viscosity: RealView,
    pub linear_solver: LaminarSimpleLinearSolver,
    pub momentum_linear_solver: LaminarSimpleLinearSolver,
    pub pressure_linear_solver: LaminarSimpleLinearSolver,
    pub momentum_preconditioner: LaminarSimplePreconditioner,
    pub pressure_preconditioner: LaminarSimplePreconditioner,
    pub linear_tolerance: RealView,
    pub max_linear_iterations: nat,
    pub momentum_linear_tolerance: RealView,
    pub pressure_linear_tolerance: RealView,
    pub momentum_max_linear_iterations: nat,
    pub pressure_max_linear_iterations: nat,
    pub max_simple_iterations: nat,
    pub min_simple_iterations: nat,
    pub momentum_residual_control: Option<RealView>,
    pub pressure_residual_control: Option<RealView>,
    pub pressure_reference_cell: Option<nat>,
    pub pressure_reference_value: RealView,
    pub non_orthogonal_correctors: nat,
    pub simple_consistent: bool,
    pub velocity_relaxation: RealView,
    pub pressure_relaxation: RealView,
    pub schemes: LaminarSimpleSchemes,
}

/// The view of the settings.
pub open spec fn options_view(options: LaminarSimpleOptions) -> OptionsView {
    OptionsView {
        density: options.density@,
        dynamic_viscosity: options.dynamic_viscosity@,
        linear_solver: options.linear_solver,
        momentum_linear_solver: options.momentum_linear_solver,
        pressure_linear_solver: options.pressure_linear_solver,
        momentum_preconditioner: options.momentum_preconditioner,
        pressure_preconditioner: options.pressure_preconditioner,
        linear_tolerance: options.linear_tolerance@,
        max_linear_iterations: options.max_linear_iterations as nat,
        momentum_linear_tolerance: options.momentum_linear_tolerance@,
        pressure_linear_tolerance: options.pressure_linear_tolerance@,
        momentum_max_linear_iterations: options.momentum_max_linear_iterations as nat,
        pressure_max_linear_iterations: options.pressure_max_linear_iterations as nat,
        max_simple_iterations: options.max_simple_iterations as nat,
        min_simple_iterations: options.min_simple_iterations as nat,
        momentum_residual_control: reals::opt_real(options.momentum_residual_control),
        pressure_residual_control: reals::opt_real(options.pressure_residual_control),
        pressure_reference_cell: lookup::opt_count(options.pressure_reference_cell),
        pressure_reference_value: options.pressure_reference_value@,
        non_orthogonal_correctors: options.non_orthogonal_correctors as nat,
        simple_consistent: options.simple_consistent,
        velocity_relaxation: options.velocity_relaxation@,
        pressure_relaxation: options.pressure_relaxation@,
        schemes: options.schemes,
    }
}

/// The linear solvers of the settings.
pub struct LinearView {
    pub linear_solver: LaminarSimpleLinearSolver,
    pub momentum_linear_solver: LaminarSimpleLinearSolver,
    pub pressure_linear_solver: LaminarSimpleLinearSolver,
    pub momentum_preconditioner: LaminarSimplePreconditioner,
    pub pressure_preconditioner: LaminarSimplePreconditioner,
    pub linear_tolerance: RealView,
    pub max_linear_iterations: nat,
    pub momentum_linear_tolerance: RealView,
    pub pressure_linear_tolerance: RealView,
    pub momentum_max_linear_iterations: nat,
    pub pressure_max_linear_iterations: nat,
}

struct Linear {
    linear_solver: LaminarSimpleLinearSolver,
    momentum_linear_solver: LaminarSimpleLinearSolver,
    pressure_linear_solver: LaminarSimpleLinearSolver,
    momentum_preconditioner: LaminarSimplePreconditioner,
    pressure_preconditioner: LaminarSimplePreconditioner,
    linear_tolerance: Real,
    max_linear_iterations: usize,
    momentum_linear_tolerance: Real,
    pressure_linear_tolerance: Real,
    momentum_max_linear_iterations: usize,
    pressure_max_linear_iterations: usize,
}

impl View for Linear {
    type V = LinearView;

    closed spec fn view(&self) -> LinearView {
        LinearView {
            linear_solver: self.linear_solver,
            momentum_linear_solver: self.momentum_linear_solver,
            pressure_linear_solver: self.pressure_linear_solver,
            momentum_preconditioner: self.momentum_preconditioner,
            pressure_preconditioner: self.pressure_preconditioner,
            linear_tolerance: self.linear_tolerance@,
            max_linear_iterations: self.max_linear_iterations as nat,
            momentum_linear_tolerance: self.momentum_linear_tolerance@,
            pressure_linear_tolerance: self.pressure_linear_tolerance@,
            momentum_max_linear_iterations: self.momentum_max_linear_iterations as nat,
            pressure_max_linear_iterations: self.pressure_max_linear_iterations as nat,
        }
    }
}

/// The iterations of the settings.
pub struct ControlView {
    pub max_simple_iterations: nat,
    pub min_simple_iterations: nat,
    pub momentum_residual_control: Option<RealView>,
    pub pressure_residual_control: Option<RealView>,
    pub pressure_reference_cell: Option<nat>,
    pub pressure_reference_value: RealView,
    pub non_orthogonal_correctors: nat,
    pub simple_consistent: bool,
}

struct Control {
    max_simple_iterations: usize,
    min_simple_iterations: usize,
    momentum_residual_control: Option<Real>,
    pressure_residual_control: Option<Real>,
    pressure_reference_cell: Option<usize>,
    pressure_reference_value: Real,
    non_orthogonal_correctors: usize,
    simple_consistent: bool,
}

impl View for Control {
    type V = ControlView;

    closed spec fn view(&self) -> ControlView {
        ControlView {
            max_simple_iterations: self.max_simple_iterations as nat,
            min_simple_iterations: self.min_simple_iterations as nat,
            momentum_residual_control: reals::opt_real(self.momentum_residual_control),
            pressure_residual_control: reals::opt_real(self.pressure_residual_control),
            pressure_reference_cell: lookup::opt_count(self.pressure_reference_cell),
            pressure_reference_value: self.pressure_reference_value@,
            non_orthogonal_correctors: self.non_orthogonal_correctors as nat,
            simple_consistent: self.simple_consistent,
        }
    }
}

/// The first of two, where there is one.
pub open spec fn either<T>(first: Option<T>, second: Option<T>) -> Option<T> {
    match first {
        Some(found) => Some(found),
        None => second,
    }
}

/// A value, or `default` where there is none.
pub open spec fn or_else<T>(found: Option<T>, default: T) -> T {
    match found {
        Some(inner) => inner,
        None => default,
    }
}

/// The linear solver that is asked for, or that of the case.
pub open spec fn chosen_solver(
    asked: Option<LaminarSimpleLinearSolver>,
    dictionary: SolverNumericsDictionaryPlan,
    section: Seq<char>,
) -> Result<LaminarSimpleLinearSolver, Seq<char>> {
    match asked {
        Some(solver) => Ok(solver),
        None => lookup::solution_solver(dictionary, section),
    }
}

/// The linear solvers of the momentum and of the pressure with their
/// preconditioners; the controls of both are checked before the
/// preconditioners are looked up.
pub open spec fn linear_choice(
    readings: Readings,
    dictionary: SolverNumericsDictionaryPlan,
    solve: LaminarSimpleSolveView,
) -> Result<
    (
        LaminarSimpleLinearSolver,
        LaminarSimpleLinearSolver,
        LaminarSimplePreconditioner,
        LaminarSimplePreconditioner,
    ),
    Seq<char>,
> {
    match chosen_solver(
        either(solve.momentum_linear_solver, solve.linear_solver),
        dictionary,
        "solvers.U"@,
    ) {
        Err(message) => Err(message),
        Ok(momentum) => match chosen_solver(
            either(solve.pressure_linear_solver, solve.linear_solver),
            dictionary,
            "solvers.p"@,
        ) {
            Err(message) => Err(message),
            Ok(pressure) => match lookup::controls_checked(
                readings,
                dictionary,
                "solvers.U"@,
                momentum,
            ) {
                Err(message) => Err(message),
                Ok(_) => match lookup::controls_checked(
                    readings,
                    dictionary,
                    "solvers.p"@,
                    pressure,
                ) {
                    Err(message) => Err(message),
                    Ok(_) => match lookup::solution_preconditioner(
                        dictionary,
                        "solvers.U"@,
                        momentum,
                        solve.momentum_preconditioner,
                    ) {
                        Err(message) => Err(message),
                        Ok(first) => match lookup::solution_preconditioner(
                            dictionary,
                            "solvers.p"@,
                            pressure,
                            solve.pressure_preconditioner,
                        ) {
                            Err(message) => Err(message),
                            Ok(second) => Ok((momentum, pressure, first, second)),
                        },
                    },
                },
            },
        },
    }
}

/// The linear solvers of the settings: what the command line says of an
/// equation, else what it says of both, else what the case says, else the
/// default.
pub open spec fn linear_of(
    readings: Readings,
    dictionary: SolverNumericsDictionaryPlan,
    solve: LaminarSimpleSolveView,
) -> Result<LinearView, Seq<char>> {
    match lookup::solution_number(readings, dictionary, "solvers.U"@, "tolerance"@) {
        Err(message) => Err(message),
        Ok(momentum_tolerance) => match lookup::solution_number(
            readings,
            dictionary,
            "solvers.p"@,
            "tolerance"@,
        ) {
            Err(message) => Err(message),
            Ok(pressure_tolerance) => match lookup::solution_count(
                dictionary,
                "solvers.U"@,
                "maxIter"@,
            ) {
                Err(message) => Err(message),
                Ok(momentum_limit) => match lookup::solution_count(
                    dictionary,
                    "solvers.p"@,
                    "maxIter"@,
                ) {
                    Err(message) => Err(message),
                    Ok(pressure_limit) => match linear_choice(readings, dictionary, solve) {
                        Err(message) => Err(message),
                        Ok((momentum, pressure, first, second)) => Ok(
                            LinearView {
                                linear_solver: or_else(solve.linear_solver, momentum),
                                momentum_linear_solver: momentum,
                                pressure_linear_solver: pressure,
                                momentum_preconditioner: first,
                                pressure_preconditioner: second,
                                linear_tolerance: or_else(
                                    either(solve.linear_tolerance, momentum_tolerance),
                                    default_tolerance(),
                                ),
                                max_linear_iterations: or_else(
                                    solve.max_linear_iterations,
                                    OPENFOAM_DEFAULT_LDU_MAX_ITERATIONS as nat,
                                ),
                                momentum_linear_tolerance: or_else(
                                    either(
                                        solve.momentum_linear_tolerance,
                                        either(solve.linear_tolerance, momentum_tolerance),
                                    ),
                                    default_tolerance(),
                                ),
                                pressure_linear_tolerance: or_else(
                                    either(
                                        solve.pressure_linear_tolerance,
                                        either(solve.linear_tolerance, pressure_tolerance),
                                    ),
                                    default_tolerance(),
                                ),
                                momentum_max_linear_iterations: or_else(
                                    either(
                                        solve.momentum_max_linear_iterations,
                                        either(solve.max_linear_iterations, momentum_limit),
                                    ),
                                    OPENFOAM_DEFAULT_LDU_MAX_ITERATIONS as nat,
                                ),
                                pressure_max_linear_iterations: or_else(
                                    either(
                                        solve.pressure_max_linear_iterations,
                                        either(solve.max_linear_iterations, pressure_limit),
                                    ),
                                    OPENFOAM_DEFAULT_LDU_MAX_ITERATIONS as nat,
                                ),
                            },
                        ),
                    },
                },
            },
        },
    }
}

/// The limit of the iterations: what the command line says, else the time
/// steps of the case; it must be above zero.
pub open spec fn iteration_limit(
    asked: Option<nat>,
    steps: Option<nat>,
) -> Result<nat, Seq<char>> {
    match either(asked, steps) {
        Some(limit) => if limit > 0 {
            Ok(limit)
        } else {
            Err(
                "Laminar SIMPLE requires --maxSimpleIterations or a positive controlDict endTime/deltaT iteration count"@,
            )
        },
        None => Err(
            "Laminar SIMPLE requires --maxSimpleIterations or a positive controlDict endTime/deltaT iteration count"@,
        ),
    }
}

/// The reference of the pressure and the correctors of the settings.
pub open spec fn reference_of(
    readings: Readings,
    dictionary: SolverNumericsDictionaryPlan,
    solve: LaminarSimpleSolveView,
) -> Result<(Option<nat>, RealView, nat, bool), Seq<char>> {
    match lookup::solution_count(dictionary, "SIMPLE"@, "pRefCell"@) {
        Err(message) => Err(message),
        Ok(cell) => match lookup::solution_number(
            readings,
            dictionary,
            "SIMPLE"@,
            "pRefValue"@,
        ) {
            Err(message) => Err(message),
            Ok(value) => match lookup::solution_count(
                dictionary,
                "SIMPLE"@,
                "nNonOrthogonalCorrectors"@,
            ) {
                Err(message) => Err(message),
                Ok(correctors) => match lookup::solution_flag(
                    dictionary,
                    "SIMPLE"@,
                    "consistent"@,
                ) {
                    Err(message) => Err(message),
                    Ok(consistent) => Ok(
                        (
                            either(solve.pressure_reference_cell, cell),
                            or_else(
                                either(solve.pressure_reference_value, value),
                                reals::zero(),
                            ),
                            or_else(either(solve.non_orthogonal_correctors, correctors), 0),
                            or_else(either(solve.simple_consistent, consistent), false),
                        ),
                    ),
                },
            },
        },
    }
}

/// The iterations of the settings.
pub open spec fn control_of(
    readings: Readings,
    dictionary: SolverNumericsDictionaryPlan,
    steps: Option<nat>,
    solve: LaminarSimpleSolveView,
) -> Result<ControlView, Seq<char>> {
    match iteration_limit(solve.max_simple_iterations, steps) {
        Err(message) => Err(message),
        Ok(limit) => match lookup::solution_count(
            dictionary,
            "SIMPLE"@,
            "minSimpleIterations"@,
        ) {
            Err(message) => Err(message),
            Ok(least) => match lookup::residual_control_checked(dictionary) {
                Err(message) => Err(message),
                Ok(_) => match lookup::solution_scalar(
                    readings,
                    dictionary,
                    "SIMPLE.residualControl"@,
                    "U"@,
                ) {
                    Err(message) => Err(message),
                    Ok(momentum) => match lookup::solution_scalar(
                        readings,
                        dictionary,
                        "SIMPLE.residualControl"@,
                        "p"@,
                    ) {
                        Err(message) => Err(message),
                        Ok(pressure) => match reference_of(readings, dictionary, solve) {
                            Err(message) => Err(message),
                            Ok((cell, value, correctors, consistent)) => Ok(
                                ControlView {
                                    max_simple_iterations: limit,
                                    min_simple_iterations: or_else(
                                        either(solve.min_simple_iterations, least),
                                        if limit > 1 {
                                            2
                                        } else {
                                            1
                                        },
                                    ),
                                    momentum_residual_control: momentum,
                                    pressure_residual_control: pressure,
                                    pressure_reference_cell: cell,
                                    pressure_reference_value: value,
                                    non_orthogonal_correctors: correctors,
                                    simple_consistent: consistent,
                                },
                            ),
                        },
                    },
                },
            },
        },
    }
}

/// The scheme of a key, or of the fallback where the key has none.
pub open spec fn scheme_value(
    dictionary: SolverNumericsDictionaryPlan,
    section: Seq<char>,
    key: Seq<char>,
    fallback: Option<Seq<char>>,
) -> Result<Seq<char>, Seq<char>> {
    let second = match fallback {
        Some(other) => lookup::value_of(dictionary, section, other),
        None => None,
    };
    match either(lookup::value_of(dictionary, section, key), second) {
        Some(value) => Ok(value),
        None => Err(
            match fallback {
                Some(other) => "fvSchemes "@ + section + " requires "@ + key + " or "@ + other,
                None => "fvSchemes "@ + section + " requires "@ + key,
            },
        ),
    }
}

/// The scheme of the diffusion.
pub open spec fn laplacian_value(dictionary: SolverNumericsDictionaryPlan) -> Result<
    Seq<char>,
    Seq<char>,
> {
    match either(
        lookup::value_of(dictionary, "laplacianSchemes"@, "laplacian(nu,U)"@),
        either(
            lookup::value_of(dictionary, "laplacianSchemes"@, "laplacian(nuEff,U)"@),
            lookup::value_of(dictionary, "laplacianSchemes"@, "default"@),
        ),
    ) {
        Some(value) => Ok(value),
        None => Err(
            "fvSchemes laplacianSchemes requires laplacian(nu,U), laplacian(nuEff,U), or default"@,
        ),
    }
}

/// A gradient scheme of the settings.
pub open spec fn gradient_of(dictionary: SolverNumericsDictionaryPlan, key: Seq<char>) -> Result<
    schemes::LaminarSimpleGradientScheme,
    Seq<char>,
> {
    match scheme_value(dictionary, "gradSchemes"@, key, Some("default"@)) {
        Err(message) => Err(message),
        Ok(value) => schemes::gradient_scheme(value),
    }
}

/// The convection scheme of the settings.
pub open spec fn convection_of(dictionary: SolverNumericsDictionaryPlan) -> Result<
    schemes::LaminarSimpleConvectionScheme,
    Seq<char>,
> {
    match scheme_value(dictionary, "divSchemes"@, "div(phi,U)"@, Some("default"@)) {
        Err(message) => Err(message),
        Ok(value) => schemes::convection_scheme(value),
    }
}

/// The interpolation scheme of the settings.
pub open spec fn interpolation_of(dictionary: SolverNumericsDictionaryPlan) -> Result<
    schemes::LaminarSimpleInterpolationScheme,
    Seq<char>,
> {
    match scheme_value(dictionary, "interpolationSchemes"@, "default"@, None) {
        Err(message) => Err(message),
        Ok(value) => schemes::interpolation_scheme(value),
    }
}

/// The schemes for normal gradients and diffusion of the settings.
pub open spec fn normal_of(dictionary: SolverNumericsDictionaryPlan) -> Result<
    (schemes::LaminarSimpleSnGradScheme, schemes::LaminarSimpleLaplacianScheme),
    Seq<char>,
> {
    match scheme_value(dictionary, "snGradSchemes"@, "default"@, None) {
        Err(message) => Err(message),
        Ok(value) => match schemes::sn_grad_scheme(value) {
            Err(message) => Err(message),
            Ok(sn_grad) => match laplacian_value(dictionary) {
                Err(message) => Err(message),
                Ok(inner) => match schemes::laplacian_scheme(inner, sn_grad) {
                    Err(message) => Err(message),
                    Ok(laplacian) => Ok((sn_grad, laplacian)),
                },
            },
        },
    }
}

/// The schemes of the settings.
pub open spec fn schemes_of(dictionary: SolverNumericsDictionaryPlan) -> Result<
    LaminarSimpleSchemes,
    Seq<char>,
> {
    if !dictionary.present {
        Err("Laminar SIMPLE solve requires OpenFOAM-style system/fvSchemes"@)
    } else {
        match normal_of(dictionary) {
            Err(message) => Err(message),
            Ok((sn_grad, laplacian)) => match gradient_of(dictionary, "grad(p)"@) {
                Err(message) => Err(message),
                Ok(grad_p) => match gradient_of(dictionary, "grad(U)"@) {
                    Err(message) => Err(message),
                    Ok(grad_u) => match convection_of(dictionary) {
                        Err(message) => Err(message),
                        Ok(div_phi_u) => match interpolation_of(dictionary) {
                            Err(message) => Err(message),
                            Ok(interpolation) => Ok(
                                LaminarSimpleSchemes {
                                    grad_p,
                                    grad_u,
                                    div_phi_u,
                                    laplacian,
                                    interpolation,
                                    sn_grad,
                                },
                            ),
                        },
                    },
                },
            },
        }
    }
}

/// A number that is asked for, or that of the transport properties.
pub open spec fn transport(
    readings: Readings,
    plan: SolverCasePlan,
    asked: Option<RealView>,
    key: Seq<char>,
) -> Option<RealView> {
    either(
        asked,
        lookup::property(readings, plan.properties.entries@, "transportProperties"@, key),
    )
}

/// The density and the viscosity of the settings.
pub open spec fn fluid_of(
    readings: Readings,
    plan: SolverCasePlan,
    solve: LaminarSimpleSolveView,
) -> Result<(RealView, RealView), Seq<char>> {
    match transport(readings, plan, solve.density, "rho"@) {
        None => Err("Laminar SIMPLE solve requires --rho or transportProperties.rho"@),
        Some(density) => match transport(readings, plan, solve.dynamic_viscosity, "mu"@) {
            None => Err("Laminar SIMPLE solve requires --mu or transportProperties.mu"@),
            Some(viscosity) => Ok((density, viscosity)),
        },
    }
}

/// The relaxation of the settings.
pub open spec fn relaxation_of(
    readings: Readings,
    dictionary: SolverNumericsDictionaryPlan,
    solve: LaminarSimpleSolveView,
) -> Result<(RealView, RealView), Seq<char>> {
    match lookup::solution_number(
        readings,
        dictionary,
        "relaxationFactors.equations"@,
        "U"@,
    ) {
        Err(message) => Err(message),
        Ok(velocity) => match lookup::solution_number(
            readings,
            dictionary,
            "relaxationFactors.fields"@,
            "p"@,
        ) {
            Err(message) => Err(message),
            Ok(pressure) => Ok(
                (
                    or_else(either(solve.velocity_relaxation, velocity), reals::one()),
                    or_else(either(solve.pressure_relaxation, pressure), reals::one()),
                ),
            ),
        },
    }
}

/// The settings of a run.
pub open spec fn resolved(
    readings: Readings,
    plan: SolverCasePlan,
    solve: LaminarSimpleSolveView,
) -> Result<OptionsView, Seq<char>> {
    let dictionary = plan.numerics.fv_solution;
    if !dictionary.present {
        Err("Laminar SIMPLE solve requires OpenFOAM-style system/fvSolution"@)
    } else {
        match fluid_of(readings, plan, solve) {
            Err(message) => Err(message),
            Ok((density, viscosity)) => match linear_of(readings, dictionary, solve) {
                Err(message) => Err(message),
                Ok(linear) => match control_of(
                    readings,
                    dictionary,
                    lookup::opt_count(plan.run.estimated_steps),
                    solve,
                ) {
                    Err(message) => Err(message),
                    Ok(control) => match schemes_of(plan.numerics.fv_schemes) {
                        Err(message) => Err(message),
                        Ok(found) => match relaxation_of(readings, dictionary, solve) {
                            Err(message) => Err(message),
                            Ok((velocity, pressure)) => Ok(
                                OptionsView {
                                    density,
                                    dynamic_viscosity: viscosity,
                                    linear_solver: linear.linear_solver,
                                    momentum_linear_solver: linear.momentum_linear_solver,
                                    pressure_linear_solver: linear.pressure_linear_solver,
                                    momentum_preconditioner: linear.momentum_preconditioner,
                                    pressure_preconditioner: linear.pressure_preconditioner,
                                    linear_tolerance: linear.linear_tolerance,
                                    max_linear_iterations: linear.max_linear_iterations,
                                    momentum_linear_tolerance: linear.momentum_linear_tolerance,
                                    pressure_linear_tolerance: linear.pressure_linear_tolerance,
                                    momentum_max_linear_iterations: linear.momentum_max_linear_iterations,
                                    pressure_max_linear_iterations: linear.pressure_max_linear_iterations,
                                    max_simple_iterations: control.max_simple_iterations,
                                    min_simple_iterations: control.min_simple_iterations,
                                    momentum_residual_control: control.momentum_residual_control,
                                    pressure_residual_control: control.pressure_residual_control,
                                    pressure_reference_cell: control.pressure_reference_cell,
                                    pressure_reference_value: control.pressure_reference_value,
                                    non_orthogonal_correctors: control.non_orthogonal_correctors,
                                    simple_consistent: control.simple_consistent,
                                    velocity_relaxation: velocity,
                                    pressure_relaxation: pressure,
                                    schemes: found,
                                },
                            ),
                        },
                    },
                },
            },
        }
    }
}

/// Whether a setting has the value that is asked for, where one is.
pub open spec fn obeyed<T>(asked: Option<T>, found: T) -> bool {
    asked matches Some(value) ==> found == value
}

/// What the command line asks for is what the run gets, whatever the case says.
pub proof fn command_line_wins(
    readings: Readings,
    plan: SolverCasePlan,
    solve: LaminarSimpleSolveView,
)
    requires
        resolved(readings, plan, solve) is Ok,
    ensures
        ({
            let found = resolved(readings, plan, solve)->Ok_0;
            &&& obeyed(solve.density, found.density)
            &&& obeyed(solve.dynamic_viscosity, found.dynamic_viscosity)
            &&& obeyed(solve.linear_solver, found.linear_solver)
            &&& obeyed(solve.momentum_linear_solver, found.momentum_linear_solver)
            &&& obeyed(solve.pressure_linear_solver, found.pressure_linear_solver)
            &&& obeyed(solve.momentum_preconditioner, found.momentum_preconditioner)
            &&& obeyed(solve.pressure_preconditioner, found.pressure_preconditioner)
            &&& obeyed(solve.linear_tolerance, found.linear_tolerance)
            &&& obeyed(solve.max_linear_iterations, found.max_linear_iterations)
            &&& obeyed(solve.momentum_linear_tolerance, found.momentum_linear_tolerance)
            &&& obeyed(solve.pressure_linear_tolerance, found.pressure_linear_tolerance)
            &&& obeyed(solve.momentum_max_linear_iterations, found.momentum_max_linear_iterations)
            &&& obeyed(solve.pressure_max_linear_iterations, found.pressure_max_linear_iterations)
            &&& obeyed(solve.max_simple_iterations, found.max_simple_iterations)
            &&& obeyed(solve.min_simple_iterations, found.min_simple_iterations)
            &&& obeyed(solve.pressure_reference_value, found.pressure_reference_value)
            &&& obeyed(solve.non_orthogonal_correctors, found.non_orthogonal_correctors)
            &&& obeyed(solve.simple_consistent, found.simple_consistent)
            &&& obeyed(solve.velocity_relaxation, found.velocity_relaxation)
            &&& obeyed(solve.pressure_relaxation, found.pressure_relaxation)
            &&& solve.pressure_reference_cell is Some ==> found.pressure_reference_cell
                == solve.pressure_reference_cell
        }),
{
}

/// A run that gets settings has an iteration to make.
pub proof fn resolved_run_iterates(
    readings: Readings,
    plan: SolverCasePlan,
    solve: LaminarSimpleSolveView,
)
    requires
        resolved(readings, plan, solve) is Ok,
    ensures
        resolved(readings, plan, solve)->Ok_0.max_simple_iterations > 0,
{
}

/// A relative tolerance other than zero is not passed over: where a case asks
/// for one, there are no settings.
pub proof fn relative_tolerance_is_refused(
    readings: Readings,
    plan: SolverCasePlan,
    solve: LaminarSimpleSolveView,
    section: Seq<char>,
)
    requires
        section == "solvers.U"@ || section == "solvers.p"@,
        lookup::solution_number(
            readings,
            plan.numerics.fv_solution,
            section,
            "relTol"@,
        ) matches Ok(Some(tolerance)) && tolerance.kind != RealKind::Zero,
    ensures
        resolved(readings, plan, solve) is Err,
{
}

/// Only solvers that take a preconditioner get one that the command line does
/// not ask for.
pub proof fn preconditioner_goes_with_solver(
    readings: Readings,
    plan: SolverCasePlan,
    solve: LaminarSimpleSolveView,
)
    requires
        resolved(readings, plan, solve) is Ok,
    ensures
        ({
            let found = resolved(readings, plan, solve)->Ok_0;
            &&& solve.momentum_preconditioner is None && found.momentum_preconditioner
                != LaminarSimplePreconditioner::Absent ==> found.momentum_linear_solver
                == LaminarSimpleLinearSolver::Pcg || found.momentum_linear_solver
                == LaminarSimpleLinearSolver::BiCgStab
            &&& solve.pressure_preconditioner is None && found.pressure_preconditioner
                != LaminarSimplePreconditioner::Absent ==> found.pressure_linear_solver
                == LaminarSimpleLinearSolver::Pcg || found.pressure_linear_solver
                == LaminarSimpleLinearSolver::BiCgStab
        }),
{
}

fn either_number(first: &Option<Real>, second: &Option<Real>) -> (found: Option<Real>)
    ensures
        reals::opt_real(found) == either(reals::opt_real(*first), reals::opt_real(*second)),
{
    match first {
        Some(number) => Some(number.copy()),
        None => reals::copy_opt(second),
    }
}

fn number_or(found: Option<Real>, default: Real) -> (number: Real)
    ensures
        number@ == or_else(reals::opt_real(found), default@),
{
    match found {
        Some(inner) => inner,
        None => default,
    }
}

fn either_count(first: Option<usize>, second: Option<usize>) -> (found: Option<usize>)
    ensures
        lookup::opt_count(found) == either(lookup::opt_count(first), lookup::opt_count(second)),
{
    match first {
        Some(count) => Some(count),
        None => second,
    }
}

fn count_or(found: Option<usize>, default: usize) -> (count: usize)
    ensures
        count as nat == or_else(lookup::opt_count(found), default as nat),
{
    match found {
        Some(inner) => inner,
        None => default,
    }
}

fn ldu_tolerance() -> (number: Real)
    ensures
        number@ == default_tolerance(),
{
    Real {
        kind: RealKind::UpToOne,
        display: "0.000001".to_string(),
        scientific: "1.000000e-6".to_string(),
        percent: "0.000%".to_string(),
        full: "9.9999999999999995e-7".to_string(),
    }
}

fn choose_solver(
    first: Option<LaminarSimpleLinearSolver>,
    second: Option<LaminarSimpleLinearSolver>,
    dictionary: &SolverNumericsDictionaryPlan,
    section: &str,
) -> (out: Result<LaminarSimpleLinearSolver, String>)
    ensures
        match out {
            Ok(solver) => text::accepts(
                chosen_solver(either(first, second), *dictionary, section@),
                solver,
            ),
            Err(message) => text::refuses(
                chosen_solver(either(first, second), *dictionary, section@),
                message,
            ),
        },
{
    match first {
        Some(solver) => Ok(solver),
        None => match second {
            Some(solver) => Ok(solver),
            None => lookup::required_fv_solution_laminar_solver(dictionary, section),
        },
    }
}

fn resolve_linear(
    readings: &Readings,
    dictionary: &SolverNumericsDictionaryPlan,
    solve: &LaminarSimpleSolveArgs,
) -> (out: Result<Linear, String>)
    ensures
        match out {
            Ok(found) => text::accepts(linear_of(*readings, *dictionary, solve@), found@),
            Err(message) => text::refuses(linear_of(*readings, *dictionary, solve@), message),
        },
{
    let momentum_tolerance = lookup::fv_solution_number(
        readings,
        dictionary,
        "solvers.U",
        "tolerance",
    )?;
    let pressure_tolerance = lookup::fv_solution_number(
        readings,
        dictionary,
        "solvers.p",
        "tolerance",
    )?;
    let momentum_limit = lookup::fv_solution_usize(dictionary, "solvers.U", "maxIter")?;
    let pressure_limit = lookup::fv_solution_usize(dictionary, "solvers.p", "maxIter")?;
    let momentum = choose_solver(
        solve.momentum_linear_solver,
        solve.linear_solver,
        dictionary,
        "solvers.U",
    )?;
    let pressure = choose_solver(
        solve.pressure_linear_solver,
        solve.linear_solver,
        dictionary,
        "solvers.p",
    )?;
    lookup::validate_openfoam_linear_controls(readings, dictionary, "solvers.U", momentum)?;
    lookup::validate_openfoam_linear_controls(readings, dictionary, "solvers.p", pressure)?;
    let first = lookup::resolve_laminar_preconditioner(
        dictionary,
        "solvers.U",
        momentum,
        solve.momentum_preconditioner,
    )?;
    let second = lookup::resolve_laminar_preconditioner(
        dictionary,
        "solvers.p",
        pressure,
        solve.pressure_preconditioner,
    )?;
    let both_momentum = either_number(&solve.linear_tolerance, &momentum_tolerance);
    let both_pressure = either_number(&solve.linear_tolerance, &pressure_tolerance);
    let linear_solver = match solve.linear_solver {
        Some(solver) => solver,
        None => momentum,
    };
    Ok(
        Linear {
            linear_solver,
            momentum_linear_solver: momentum,
            pressure_linear_solver: pressure,
            momentum_preconditioner: first,
            pressure_preconditioner: second,
            linear_tolerance: number_or(reals::copy_opt(&both_momentum), ldu_tolerance()),
            max_linear_iterations: count_or(
                solve.max_linear_iterations,
                OPENFOAM_DEFAULT_LDU_MAX_ITERATIONS,
            ),
            momentum_linear_tolerance: number_or(
                either_number(&solve.momentum_linear_tolerance, &both_momentum),
                ldu_tolerance(),
            ),
            pressure_linear_tolerance: number_or(
                either_number(&solve.pressure_linear_tolerance, &both_pressure),
                ldu_tolerance(),
            ),
            momentum_max_linear_iterations: count_or(
                either_count(
                    solve.momentum_max_linear_iterations,
                    either_count(solve.max_linear_iterations, momentum_limit),
                ),
                OPENFOAM_DEFAULT_LDU_MAX_ITERATIONS,
            ),
            pressure_max_linear_iterations: count_or(
                either_count(
                    solve.pressure_max_linear_iterations,
                    either_count(solve.max_linear_iterations, pressure_limit),
                ),
                OPENFOAM_DEFAULT_LDU_MAX_ITERATIONS,
            ),
        },
    )
}

fn resolve_limit(asked: Option<usize>, steps: Option<usize>) -> (out: Result<usize, String>)
    ensures
        match out {
            Ok(limit) => text::accepts(
                iteration_limit(lookup::opt_count(asked), lookup::opt_count(steps)),
                limit as nat,
            ),
            Err(message) => text::refuses(
                iteration_limit(lookup::opt_count(asked), lookup::opt_count(steps)),
                message,
            ),
        },
{
    if let Some(limit) = either_count(asked, steps) {
        if limit > 0 {
            return Ok(limit);
        }
    }
    Err(
        "Laminar SIMPLE requires --maxSimpleIterations or a positive controlDict endTime/deltaT iteration count".to_string(),
    )
}

fn resolve_control(
    readings: &Readings,
    dictionary: &SolverNumericsDictionaryPlan,
    steps: Option<usize>,
    solve: &LaminarSimpleSolveArgs,
) -> (out: Result<Control, String>)
    ensures
        match out {
            Ok(found) => text::accepts(
                control_of(*readings, *dictionary, lookup::opt_count(steps), solve@),
                found@,
            ),
            Err(message) => text::refuses(
                control_of(*readings, *dictionary, lookup::opt_count(steps), solve@),
                message,
            ),
        },
{
    let limit: usize = resolve_limit(solve.max_simple_iterations, steps)?;
    let least = lookup::fv_solution_usize(dictionary, "SIMPLE", "minSimpleIterations")?;
    lookup::validate_laminar_residual_control_dictionary(dictionary)?;
    let momentum = lookup::fv_solution_single_scalar(
        readings,
        dictionary,
        "SIMPLE.residualControl",
        "U",
    )?;
    let pressure = lookup::fv_solution_single_scalar(
        readings,
        dictionary,
        "SIMPLE.residualControl",
        "p",
    )?;
    let cell = lookup::fv_solution_usize(dictionary, "SIMPLE", "pRefCell")?;
    let value = lookup::fv_solution_number(readings, dictionary, "SIMPLE", "pRefValue")?;
    let correctors = lookup::fv_solution_usize(dictionary, "SIMPLE", "nNonOrthogonalCorrectors")?;
    let consistent = lookup::fv_solution_bool(dictionary, "SIMPLE", "consistent")?;
    let default_least: usize = if limit > 1 {
        2
    } else {
        1
    };
    let simple_consistent = match solve.simple_consistent {
        Some(on) => on,
        None => match consistent {
            Some(on) => on,
            None => false,
        },
    };
    Ok(
        Control {
            max_simple_iterations: limit,
            min_simple_iterations: count_or(
                either_count(solve.min_simple_iterations, least),
                default_least,
            ),
            momentum_residual_control: momentum,
            pressure_residual_control: pressure,
            pressure_reference_cell: either_count(solve.pressure_reference_cell, cell),
            pressure_reference_value: number_or(
                either_number(&solve.pressure_reference_value, &value),
                Real::zero(),
            ),
            non_orthogonal_correctors: count_or(
                either_count(solve.non_orthogonal_correctors, correctors),
                0,
            ),
            simple_consistent,
        },
    )
}

/// The scheme of a key, or of the fallback where the key has none.
pub fn required_fv_scheme<'a>(
    dictionary: &'a SolverNumericsDictionaryPlan,
    section: &str,
    key: &str,
    fallback: Option<&str>,
) -> (out: Result<&'a String, String>)
    ensures
        ({
            let other = match fallback {
                Some(inner) => Some(inner@),
                None => None,
            };
            match out {
                Ok(value) => text::accepts(
                    scheme_value(*dictionary, section@, key@, other),
                    value@,
                ),
                Err(message) => text::refuses(
                    scheme_value(*dictionary, section@, key@, other),
                    message,
                ),
            }
        }),
{
    if let Some(value) = lookup::numerics_dictionary_value(dictionary, section, key) {
        return Ok(value);
    }
    let mut message = "fvSchemes ".to_string();
    message.append(section);
    message.append(" requires ");
    message.append(key);
    match fallback {
        Some(other) => {
            if let Some(value) = lookup::numerics_dictionary_value(dictionary, section, other) {
                return Ok(value);
            }
            message.append(" or ");
            message.append(other);
        },
        None => {},
    }
    Err(message)
}

fn required_laplacian<'a>(dictionary: &'a SolverNumericsDictionaryPlan) -> (out: Result<
    &'a String,
    String,
>)
    ensures
        match out {
            Ok(value) => text::accepts(laplacian_value(*dictionary), value@),
            Err(message) => text::refuses(laplacian_value(*dictionary), message),
        },
{
    if let Some(value) = lookup::numerics_dictionary_value(
        dictionary,
        "laplacianSchemes",
        "laplacian(nu,U)",
    ) {
        return Ok(value);
    }
    if let Some(value) = lookup::numerics_dictionary_value(
        dictionary,
        "laplacianSchemes",
        "laplacian(nuEff,U)",
    ) {
        return Ok(value);
    }
    if let Some(value) = lookup::numerics_dictionary_value(
        dictionary,
        "laplacianSchemes",
        "default",
    ) {
        return Ok(value);
    }
    Err(
        "fvSchemes laplacianSchemes requires laplacian(nu,U), laplacian(nuEff,U), or default".to_string(),
    )
}

/// The schemes of the settings.
pub fn resolve_laminar_simple_schemes(dictionary: &SolverNumericsDictionaryPlan) -> (out: Result<
    LaminarSimpleSchemes,
    String,
>)
    ensures
        match out {
            Ok(found) => text::accepts(schemes_of(*dictionary), found),
            Err(message) => text::refuses(schemes_of(*dictionary), message),
        },
{
    if !dictionary.present {
        return Err("Laminar SIMPLE solve requires OpenFOAM-style system/fvSchemes".to_string());
    }
    let sn_grad_value = required_fv_scheme(dictionary, "snGradSchemes", "default", None)?;
    let sn_grad = schemes::parse_laminar_simple_sn_grad_scheme(sn_grad_value.as_str())?;
    let laplacian_value = required_laplacian(dictionary)?;
    let laplacian = schemes::parse_laminar_simple_laplacian_scheme(
        laplacian_value.as_str(),
        sn_grad,
    )?;
    let grad_p_value = required_fv_scheme(dictionary, "gradSchemes", "grad(p)", Some("default"))?;
    let grad_p = schemes::parse_laminar_simple_gradient_scheme(grad_p_value.as_str())?;
    let grad_u_value = required_fv_scheme(dictionary, "gradSchemes", "grad(U)", Some("default"))?;
    let grad_u = schemes::parse_laminar_simple_gradient_scheme(grad_u_value.as_str())?;
    let div_value = required_fv_scheme(dictionary, "divSchemes", "div(phi,U)", Some("default"))?;
    let div_phi_u = schemes::parse_laminar_simple_convection_scheme(div_value.as_str())?;
    let interpolation_value = required_fv_scheme(
        dictionary,
        "interpolationSchemes",
        "default",
        None,
    )?;
    let interpolation = schemes::parse_laminar_simple_interpolation_scheme(
        interpolation_value.as_str(),
    )?;
    Ok(
        LaminarSimpleSchemes { grad_p, grad_u, div_phi_u, laplacian, interpolation, sn_grad },
    )
}

fn transport_number(
    readings: &Readings,
    plan: &SolverCasePlan,
    asked: &Option<Real>,
    key: &str,
) -> (number: Option<Real>)
    ensures
        reals::opt_real(number) == transport(*readings, *plan, reals::opt_real(*asked), key@),
{
    match asked {
        Some(number) => Some(number.copy()),
        None => lookup::property_number(
            readings,
            &plan.properties.entries,
            "transportProperties",
            key,
        ),
    }
}

/// The settings of a run; `readings` says what texts denote as numbers.
pub fn resolve_laminar_simple_options(
    readings: &Readings,
    plan: &SolverCasePlan,
    solve: &LaminarSimpleSolveArgs,
) -> (out: Result<LaminarSimpleOptions, String>)
    ensures
        match out {
            Ok(options) => text::accepts(
                resolved(*readings, *plan, solve@),
                options_view(options),
            ),
            Err(message) => text::refuses(resolved(*readings, *plan, solve@), message),
        },
{
    let dictionary = &plan.numerics.fv_solution;
    if !dictionary.present {
        return Err("Laminar SIMPLE solve requires OpenFOAM-style system/fvSolution".to_string());
    }
    let density = match transport_number(readings, plan, &solve.density, "rho") {
        Some(number) => number,
        None => {
            return Err(
                "Laminar SIMPLE solve requires --rho or transportProperties.rho".to_string(),
            );
        },
    };
    let dynamic_viscosity = match transport_number(
        readings,
        plan,
        &solve.dynamic_viscosity,
        "mu",
    ) {
        Some(number) => number,
        None => {
            return Err("Laminar SIMPLE solve requires --mu or transportProperties.mu".to_string());
        },
    };
    let linear = resolve_linear(readings, dictionary, solve)?;
    let control = resolve_control(readings, dictionary, plan.run.estimated_steps, solve)?;
    let found = resolve_laminar_simple_schemes(&plan.numerics.fv_schemes)?;
    let velocity = lookup::fv_solution_number(
        readings,
        dictionary,
        "relaxationFactors.equations",
        "U",
    )?;
    let pressure = lookup::fv_solution_number(
        readings,
        dictionary,
        "relaxationFactors.fields",
        "p",
    )?;
    Ok(
        LaminarSimpleOptions {
            density,
            dynamic_viscosity,
            linear_solver: linear.linear_solver,
            momentum_linear_solver: linear.momentum_linear_solver,
            pressure_linear_solver: linear.pressure_linear_solver,
            momentum_preconditioner: linear.momentum_preconditioner,
            pressure_preconditioner: linear.pressure_preconditioner,
            linear_tolerance: linear.linear_tolerance,
            max_linear_iterations: linear.max_linear_iterations,
            momentum_linear_tolerance: linear.momentum_linear_tolerance,
            pressure_linear_tolerance: linear.pressure_linear_tolerance,
            momentum_max_linear_iterations: linear.momentum_max_linear_iterations,
            pressure_max_linear_iterations: linear.pressure_max_linear_iterations,
            max_simple_iterations: control.max_simple_iterations,
            min_simple_iterations: control.min_simple_iterations,
            momentum_residual_control: control.momentum_residual_control,
            pressure_residual_control: control.pressure_residual_control,
            pressure_reference_cell: control.pressure_reference_cell,
            pressure_reference_value: control.pressure_reference_value,
            non_orthogonal_correctors: control.non_orthogonal_correctors,
            simple_consistent: control.simple_consistent,
            velocity_relaxation: number_or(
                either_number(&solve.velocity_relaxation, &velocity),
                Real::one(),
            ),
            pressure_relaxation: number_or(
                either_number(&solve.pressure_relaxation, &pressure),
                Real::one(),
            ),
            schemes: found,
        },
    )
}

/// The mathematical view of a [`PoiseuilleOptions`].
pub struct PoiseuilleView {
    pub pressure_drop: RealView,
    pub dynamic_viscosity: RealView,
    pub length: RealView,
    pub diameter: RealView,
    pub wall_patches: Seq<Seq<char>>,
}

/// The view of a flow through a pipe.
pub open spec fn poiseuille_view(options: PoiseuilleOptions) -> PoiseuilleView {
    PoiseuilleView {
        pressure_drop: options.pressure_drop@,
        dynamic_viscosity: options.dynamic_viscosity@,
        length: options.length@,
        diameter: options.diameter@,
        wall_patches: text::texts(options.wall_patches@),
    }
}

/// The flow through a pipe that is asked for.
pub open spec fn poiseuille_resolved(
    readings: Readings,
    plan: SolverCasePlan,
    solve: PoiseuilleSolveView,
) -> Result<PoiseuilleView, Seq<char>> {
    let viscosity = transport(readings, plan, solve.dynamic_viscosity, "mu"@);
    if solve.pressure_drop is None {
        Err("Poiseuille solve requires --pressureDrop"@)
    } else if viscosity is None {
        Err("Poiseuille solve requires --mu or transportProperties.mu"@)
    } else if solve.length is None {
        Err("Poiseuille solve requires --length"@)
    } else if solve.diameter is None {
        Err("Poiseuille solve requires --diameter"@)
    } else {
        Ok(
            PoiseuilleView {
                pressure_drop: solve.pressure_drop->0,
                dynamic_viscosity: viscosity->0,
                length: solve.length->0,
                diameter: solve.diameter->0,
                wall_patches: if solve.wall_patches.len() == 0 {
                    Seq::empty().push("wall"@)
                } else {
                    solve.wall_patches
                },
            },
        )
    }
}

/// The flow through a pipe that is asked for; `readings` says what texts
/// denote as numbers.
pub fn resolve_poiseuille_options(
    readings: &Readings,
    plan: &SolverCasePlan,
    solve: &PoiseuilleSolveArgs,
) -> (out: Result<PoiseuilleOptions, String>)
    ensures
        match out {
            Ok(options) => text::accepts(
                poiseuille_resolved(*readings, *plan, solve@),
                poiseuille_view(options),
            ),
            Err(message) => text::refuses(poiseuille_resolved(*readings, *plan, solve@), message),
        },
{
    let pressure_drop = match &solve.pressure_drop {
        Some(number) => number.copy(),
        None => {
            return Err("Poiseuille solve requires --pressureDrop".to_string());
        },
    };
    let dynamic_viscosity = match transport_number(
        readings,
        plan,
        &solve.dynamic_viscosity,
        "mu",
    ) {
        Some(number) => number,
        None => {
            return Err("Poiseuille solve requires --mu or transportProperties.mu".to_string());
        },
    };
    let length = match &solve.length {
        Some(number) => number.copy(),
        None => {
            return Err("Poiseuille solve requires --length".to_string());
        },
    };
    let diameter = match &solve.diameter {
        Some(number) => number.copy(),
        None => {
            return Err("Poiseuille solve requires --diameter".to_string());
        },
    };
    let mut wall_patches = text::copy_texts(&solve.wall_patches);
    assert(text::texts(wall_patches@).len() == wall_patches@.len());
    assert(text::texts(solve.wall_patches@).len() == solve.wall_patches@.len());
    if wall_patches.len() == 0 {
        wall_patches.push("wall".to_string());
        assert(text::texts(wall_patches@) =~= Seq::empty().push("wall"@));
    }
    Ok(
        PoiseuilleOptions { pressure_drop, dynamic_viscosity, length, diameter, wall_patches },
    )
}

/// Where the command line gives no density, it is the number of the transport
/// property named `rho`, and where it gives no viscosity, that of `mu`; a run
/// without either has no settings.
pub proof fn fluid_comes_from_transport_properties(
    readings: Readings,
    plan: SolverCasePlan,
    solve: LaminarSimpleSolveView,
    value: Seq<char>,
    number: RealView,
)
    requires
        lookup::ends_in_number(readings, value, number),
    ensures
        resolved(readings, plan, solve) matches Ok(found) ==> {
            &&& solve.density is None && lookup::property_says(
                plan.properties.entries@,
                "transportProperties"@,
                "rho"@,
                value,
            ) ==> found.density == number
            &&& solve.dynamic_viscosity is None && lookup::property_says(
                plan.properties.entries@,
                "transportProperties"@,
                "mu"@,
                value,
            ) ==> found.dynamic_viscosity == number
            &&& solve.density is None ==> lookup::property(
                readings,
                plan.properties.entries@,
                "transportProperties"@,
                "rho"@,
            ) == Some(found.density)
            &&& solve.dynamic_viscosity is None ==> lookup::property(
                readings,
                plan.properties.entries@,
                "transportProperties"@,
                "mu"@,
            ) == Some(found.dynamic_viscosity)
        },
{
    if lookup::property_says(
        plan.properties.entries@,
        "transportProperties"@,
        "rho"@,
        value,
    ) {
        lookup::property_is_the_last_word(
            readings,
            plan.properties.entries@,
            "transportProperties"@,
            "rho"@,
            value,
            number,
        );
    }
    if lookup::property_says(
        plan.properties.entries@,
        "transportProperties"@,
        "mu"@,
        value,
    ) {
        lookup::property_is_the_last_word(
            readings,
            plan.properties.entries@,
            "transportProperties"@,
            "mu"@,
            value,
            number,
        );
    }
}

/// A run whose fluid neither the command line nor the case describes, or whose case
/// has no solution controls or schemes, has no settings.
pub proof fn incomplete_case_is_refused(
    readings: Readings,
    plan: SolverCasePlan,
    solve: LaminarSimpleSolveView,
    key: Seq<char>,
)
    requires
        !plan.numerics.fv_solution.present || !plan.numerics.fv_schemes.present || ((key == "rho"@
            && solve.density is None || key == "mu"@ && solve.dynamic_viscosity is None)
            && forall|i: int|
            0 <= i < plan.properties.entries@.len() ==> (
            #[trigger] plan.properties.entries@[i]).dictionary@ != "transportProperties"@
                || plan.properties.entries@[i].section is Some || plan.properties.entries@[i].key@
                != key) || (solve.max_simple_iterations is None && plan.run.estimated_steps is None)
            || solve.max_simple_iterations == Some(0nat),
    ensures
        resolved(readings, plan, solve) is Err,
{
    if forall|i: int|
        0 <= i < plan.properties.entries@.len() ==> (
        #[trigger] plan.properties.entries@[i]).dictionary@ != "transportProperties"@
            || plan.properties.entries@[i].section is Some || plan.properties.entries@[i].key@
            != key {
        lookup::missing_property_is_unknown(
            readings,
            plan.properties.entries@,
            "transportProperties"@,
            key,
        );
    }
}

/// The limit of the iterations is the number of time steps of the case where the
/// command line gives none.
pub proof fn steps_limit_the_iterations(
    readings: Readings,
    plan: SolverCasePlan,
    solve: LaminarSimpleSolveView,
)
    requires
        resolved(readings, plan, solve) is Ok,
        solve.max_simple_iterations is None,
    ensures
        plan.run.estimated_steps matches Some(steps) && steps > 0 && resolved(
            readings,
            plan,
            solve,
        )->Ok_0.max_simple_iterations == steps,
{
}

/// The numbers of the solution controls go where their entries say, where the
/// command line gives none: the tolerances of the two equations, their relaxation,
/// and the reference pressure.
pub proof fn numbers_come_from_their_entries(
    readings: Readings,
    plan: SolverCasePlan,
    solve: LaminarSimpleSolveView,
    value: Seq<char>,
    number: RealView,
)
    requires
        resolved(readings, plan, solve) is Ok,
        lookup::ends_in_number(readings, value, number),
    ensures
        ({
            let found = resolved(readings, plan, solve)->Ok_0;
            let case = plan.numerics.fv_solution;
            &&& solve.momentum_linear_tolerance is None && solve.linear_tolerance is None
                && lookup::says(case, "solvers.U"@, "tolerance"@, value)
                ==> found.momentum_linear_tolerance == number && found.linear_tolerance == number
            &&& solve.pressure_linear_tolerance is None && solve.linear_tolerance is None
                && lookup::says(case, "solvers.p"@, "tolerance"@, value)
                ==> found.pressure_linear_tolerance == number
            &&& solve.velocity_relaxation is None && lookup::says(
                case,
                "relaxationFactors.equations"@,
                "U"@,
                value,
            ) ==> found.velocity_relaxation == number
            &&& solve.pressure_relaxation is None && lookup::says(
                case,
                "relaxationFactors.fields"@,
                "p"@,
                value,
            ) ==> found.pressure_relaxation == number
            &&& solve.pressure_reference_value is None && lookup::says(
                case,
                "SIMPLE"@,
                "pRefValue"@,
                value,
            ) ==> found.pressure_reference_value == number
        }),
{
    let case = plan.numerics.fv_solution;
    lookup::number_is_the_last_word(readings, case, "solvers.U"@, "tolerance"@, value, number);
    lookup::number_is_the_last_word(readings, case, "solvers.p"@, "tolerance"@, value, number);
    lookup::number_is_the_last_word(
        readings,
        case,
        "relaxationFactors.equations"@,
        "U"@,
        value,
        number,
    );
    lookup::number_is_the_last_word(
        readings,
        case,
        "relaxationFactors.fields"@,
        "p"@,
        value,
        number,
    );
    lookup::number_is_the_last_word(readings, case, "SIMPLE"@, "pRefValue"@, value, number);
}

/// What the command line says of both equations holds of each of which it says
/// nothing.
pub proof fn common_choice_holds_for_both(
    readings: Readings,
    plan: SolverCasePlan,
    solve: LaminarSimpleSolveView,
)
    requires
        resolved(readings, plan, solve) is Ok,
    ensures
        ({
            let found = resolved(readings, plan, solve)->Ok_0;
            &&& solve.momentum_linear_tolerance is None ==> obeyed(
                solve.linear_tolerance,
                found.momentum_linear_tolerance,
            )
            &&& solve.pressure_linear_tolerance is None ==> obeyed(
                solve.linear_tolerance,
                found.pressure_linear_tolerance,
            )
            &&& solve.momentum_max_linear_iterations is None ==> obeyed(
                solve.max_linear_iterations,
                found.momentum_max_linear_iterations,
            )
            &&& solve.pressure_max_linear_iterations is None ==> obeyed(
                solve.max_linear_iterations,
                found.pressure_max_linear_iterations,
            )
            &&& solve.momentum_linear_solver is None ==> obeyed(
                solve.linear_solver,
                found.momentum_linear_solver,
            )
            &&& solve.pressure_linear_solver is None ==> obeyed(
                solve.linear_solver,
                found.pressure_linear_solver,
            )
            &&& solve.linear_solver is None ==> found.linear_solver == found.momentum_linear_solver
        }),
{
}

/// The counts and flags of the solution controls go where their entries say, where
/// the command line gives none.
pub proof fn counts_come_from_their_entries(
    readings: Readings,
    plan: SolverCasePlan,
    solve: LaminarSimpleSolveView,
    value: Seq<char>,
    count: nat,
    flag: bool,
)
    requires
        resolved(readings, plan, solve) is Ok,
    ensures
        ({
            let found = resolved(readings, plan, solve)->Ok_0;
            let case = plan.numerics.fv_solution;
            &&& text::natural(crate::flow::bare_word(value), usize::MAX as nat) == Some(count) ==> {
                &&& solve.momentum_max_linear_iterations is None
                    && solve.max_linear_iterations is None && lookup::says(
                    case,
                    "solvers.U"@,
                    "maxIter"@,
                    value,
                ) ==> found.momentum_max_linear_iterations == count
                &&& solve.pressure_max_linear_iterations is None
                    && solve.max_linear_iterations is None && lookup::says(
                    case,
                    "solvers.p"@,
                    "maxIter"@,
                    value,
                ) ==> found.pressure_max_linear_iterations == count
                &&& solve.min_simple_iterations is None && lookup::says(
                    case,
                    "SIMPLE"@,
                    "minSimpleIterations"@,
                    value,
                ) ==> found.min_simple_iterations == count
                &&& solve.pressure_reference_cell is None && lookup::says(
                    case,
                    "SIMPLE"@,
                    "pRefCell"@,
                    value,
                ) ==> found.pressure_reference_cell == Some(count)
                &&& solve.non_orthogonal_correctors is None && lookup::says(
                    case,
                    "SIMPLE"@,
                    "nNonOrthogonalCorrectors"@,
                    value,
                ) ==> found.non_orthogonal_correctors == count
            }
            &&& crate::arguments::truth(value) == Some(flag) && solve.simple_consistent is None
                && lookup::says(case, "SIMPLE"@, "consistent"@, value) ==> found.simple_consistent
                == flag
        }),
{
    let case = plan.numerics.fv_solution;
    lookup::count_is_the_whole_value(case, "solvers.U"@, "maxIter"@, value);
    lookup::count_is_the_whole_value(case, "solvers.p"@, "maxIter"@, value);
    lookup::count_is_the_whole_value(case, "SIMPLE"@, "minSimpleIterations"@, value);
    lookup::count_is_the_whole_value(case, "SIMPLE"@, "pRefCell"@, value);
    lookup::count_is_the_whole_value(case, "SIMPLE"@, "nNonOrthogonalCorrectors"@, value);
    lookup::count_is_the_whole_value(case, "SIMPLE"@, "consistent"@, value);
}

/// The residual limits are those of the case: of the velocity under `U`, of the
/// pressure under `p`, and none where the case is silent.
pub proof fn residual_limits_come_from_their_entries(
    readings: Readings,
    plan: SolverCasePlan,
    solve: LaminarSimpleSolveView,
    value: Seq<char>,
    number: RealView,
)
    requires
        resolved(readings, plan, solve) is Ok,
        text::words(crate::flow::bare_word(value)).len() == 1,
        readings.number(text::words(crate::flow::bare_word(value))[0]) == Some(number),
    ensures
        ({
            let found = resolved(readings, plan, solve)->Ok_0;
            let case = plan.numerics.fv_solution;
            let section = "SIMPLE.residualControl"@;
            &&& lookup::says(case, section, "U"@, value) ==> found.momentum_residual_control
                == Some(number)
            &&& lookup::says(case, section, "p"@, value) ==> found.pressure_residual_control
                == Some(number)
            &&& lookup::is_silent(case, section, "U"@) ==> found.momentum_residual_control is None
            &&& lookup::is_silent(case, section, "p"@) ==> found.pressure_residual_control is None
        }),
{
    let case = plan.numerics.fv_solution;
    lookup::scalar_stands_alone(readings, case, "SIMPLE.residualControl"@, "U"@, value);
    lookup::scalar_stands_alone(readings, case, "SIMPLE.residualControl"@, "p"@, value);
}

/// Where neither the command line nor the case says anything, the defaults hold: a
/// tolerance of one millionth, a thousand linear iterations, no relaxation, a
/// reference pressure of zero at no cell, no correctors, and at least two iterations
/// where the limit allows them.
pub proof fn silence_gives_the_defaults(
    readings: Readings,
    plan: SolverCasePlan,
    solve: LaminarSimpleSolveView,
)
    requires
        resolved(readings, plan, solve) is Ok,
    ensures
        ({
            let found = resolved(readings, plan, solve)->Ok_0;
            let case = plan.numerics.fv_solution;
            &&& solve.linear_tolerance is None && solve.momentum_linear_tolerance is None
                && lookup::is_silent(case, "solvers.U"@, "tolerance"@)
                ==> found.momentum_linear_tolerance.display == "0.000001"@
            &&& solve.linear_tolerance is None && solve.pressure_linear_tolerance is None
                && lookup::is_silent(case, "solvers.p"@, "tolerance"@)
                ==> found.pressure_linear_tolerance.display == "0.000001"@
            &&& solve.max_linear_iterations is None && solve.momentum_max_linear_iterations is None
                && lookup::is_silent(case, "solvers.U"@, "maxIter"@)
                ==> found.momentum_max_linear_iterations == 1000
            &&& solve.max_linear_iterations is None && solve.pressure_max_linear_iterations is None
                && lookup::is_silent(case, "solvers.p"@, "maxIter"@)
                ==> found.pressure_max_linear_iterations == 1000
            &&& solve.max_linear_iterations is None ==> found.max_linear_iterations == 1000
            &&& solve.velocity_relaxation is None && lookup::is_silent(
                case,
                "relaxationFactors.equations"@,
                "U"@,
            ) ==> found.velocity_relaxation.display == "1"@
            &&& solve.pressure_relaxation is None && lookup::is_silent(
                case,
                "relaxationFactors.fields"@,
                "p"@,
            ) ==> found.pressure_relaxation.display == "1"@
            &&& solve.pressure_reference_value is None && lookup::is_silent(
                case,
                "SIMPLE"@,
                "pRefValue"@,
            ) ==> found.pressure_reference_value.kind == RealKind::Zero
            &&& solve.pressure_reference_cell is None && lookup::is_silent(
                case,
                "SIMPLE"@,
                "pRefCell"@,
            ) ==> found.pressure_reference_cell is None
            &&& solve.non_orthogonal_correctors is None && lookup::is_silent(
                case,
                "SIMPLE"@,
                "nNonOrthogonalCorrectors"@,
            ) ==> found.non_orthogonal_correctors == 0
            &&& solve.simple_consistent is None && lookup::is_silent(
                case,
                "SIMPLE"@,
                "consistent"@,
            ) ==> !found.simple_consistent
            &&& solve.min_simple_iterations is None && lookup::is_silent(
                case,
                "SIMPLE"@,
                "minSimpleIterations"@,
            ) ==> found.min_simple_iterations == (if found.max_simple_iterations >= 2 {
                2nat
            } else {
                1
            })
        }),
{
    let case = plan.numerics.fv_solution;
    let any = Seq::<char>::empty();
    lookup::first_entry_is_found(case, "solvers.U"@, "tolerance"@, any);
    lookup::first_entry_is_found(case, "solvers.p"@, "tolerance"@, any);
    lookup::first_entry_is_found(case, "solvers.U"@, "maxIter"@, any);
    lookup::first_entry_is_found(case, "solvers.p"@, "maxIter"@, any);
    lookup::first_entry_is_found(case, "relaxationFactors.equations"@, "U"@, any);
    lookup::first_entry_is_found(case, "relaxationFactors.fields"@, "p"@, any);
    lookup::first_entry_is_found(case, "SIMPLE"@, "pRefValue"@, any);
    lookup::first_entry_is_found(case, "SIMPLE"@, "pRefCell"@, any);
    lookup::first_entry_is_found(case, "SIMPLE"@, "nNonOrthogonalCorrectors"@, any);
    lookup::first_entry_is_found(case, "SIMPLE"@, "consistent"@, any);
    lookup::first_entry_is_found(case, "SIMPLE"@, "minSimpleIterations"@, any);
}

/// The linear solvers are those that the case names, where the command line names
/// none: of the velocity under `solvers.U`, of the pressure under `solvers.p`. A
/// preconditioner is looked up in the same place.
pub proof fn solvers_come_from_their_entries(
    readings: Readings,
    plan: SolverCasePlan,
    solve: LaminarSimpleSolveView,
    value: Seq<char>,
)
    requires
        resolved(readings, plan, solve) is Ok,
    ensures
        ({
            let found = resolved(readings, plan, solve)->Ok_0;
            let case = plan.numerics.fv_solution;
            &&& crate::flow::bare_word(value) != "smoothSolver"@ ==> {
                &&& solve.momentum_linear_solver is None && solve.linear_solver is None
                    && lookup::says(case, "solvers.U"@, "solver"@, value)
                    ==> crate::flow::solver_named(value) == Ok::<
                    LaminarSimpleLinearSolver,
                    Seq<char>,
                >(found.momentum_linear_solver)
                &&& solve.pressure_linear_solver is None && solve.linear_solver is None
                    && lookup::says(case, "solvers.p"@, "solver"@, value)
                    ==> crate::flow::solver_named(value) == Ok::<
                    LaminarSimpleLinearSolver,
                    Seq<char>,
                >(found.pressure_linear_solver)
            }
            &&& solve.momentum_preconditioner is None && (found.momentum_linear_solver
                == LaminarSimpleLinearSolver::Pcg || found.momentum_linear_solver
                == LaminarSimpleLinearSolver::BiCgStab) && lookup::says(
                case,
                "solvers.U"@,
                "preconditioner"@,
                value,
            ) ==> crate::flow::preconditioner_named(value) == Ok::<
                LaminarSimplePreconditioner,
                Seq<char>,
            >(found.momentum_preconditioner)
            &&& solve.pressure_preconditioner is None && (found.pressure_linear_solver
                == LaminarSimpleLinearSolver::Pcg || found.pressure_linear_solver
                == LaminarSimpleLinearSolver::BiCgStab) && lookup::says(
                case,
                "solvers.p"@,
                "preconditioner"@,
                value,
            ) ==> crate::flow::preconditioner_named(value) == Ok::<
                LaminarSimplePreconditioner,
                Seq<char>,
            >(found.pressure_preconditioner)
        }),
{
    let case = plan.numerics.fv_solution;
    lookup::solver_is_the_named_one(case, "solvers.U"@, value, value);
    lookup::solver_is_the_named_one(case, "solvers.p"@, value, value);
    lookup::first_entry_is_found(case, "solvers.U"@, "preconditioner"@, value);
    lookup::first_entry_is_found(case, "solvers.p"@, "preconditioner"@, value);
}

/// The schemes are those of the case: each from the entry of its term, and where
/// that entry is missing from the default of its section.
pub proof fn schemes_come_from_their_entries(
    dictionary: SolverNumericsDictionaryPlan,
    value: Seq<char>,
)
    requires
        schemes_of(dictionary) is Ok,
    ensures
        ({
            let found = schemes_of(dictionary)->Ok_0;
            &&& lookup::says(dictionary, "gradSchemes"@, "grad(p)"@, value) || (lookup::is_silent(
                dictionary,
                "gradSchemes"@,
                "grad(p)"@,
            ) && lookup::says(dictionary, "gradSchemes"@, "default"@, value))
                ==> schemes::gradient_scheme(value) == Ok::<
                schemes::LaminarSimpleGradientScheme,
                Seq<char>,
            >(found.grad_p)
            &&& lookup::says(dictionary, "gradSchemes"@, "grad(U)"@, value) || (lookup::is_silent(
                dictionary,
                "gradSchemes"@,
                "grad(U)"@,
            ) && lookup::says(dictionary, "gradSchemes"@, "default"@, value))
                ==> schemes::gradient_scheme(value) == Ok::<
                schemes::LaminarSimpleGradientScheme,
                Seq<char>,
            >(found.grad_u)
            &&& lookup::says(dictionary, "divSchemes"@, "div(phi,U)"@, value) || (lookup::is_silent(
                dictionary,
                "divSchemes"@,
                "div(phi,U)"@,
            ) && lookup::says(dictionary, "divSchemes"@, "default"@, value))
                ==> schemes::convection_scheme(value) == Ok::<
                schemes::LaminarSimpleConvectionScheme,
                Seq<char>,
            >(found.div_phi_u)
            &&& lookup::says(dictionary, "interpolationSchemes"@, "default"@, value)
                ==> schemes::interpolation_scheme(value) == Ok::<
                schemes::LaminarSimpleInterpolationScheme,
                Seq<char>,
            >(found.interpolation)
            &&& lookup::says(dictionary, "snGradSchemes"@, "default"@, value)
                ==> schemes::sn_grad_scheme(value) == Ok::<
                schemes::LaminarSimpleSnGradScheme,
                Seq<char>,
            >(found.sn_grad)
            &&& lookup::says(dictionary, "laplacianSchemes"@, "laplacian(nu,U)"@, value) || (
            lookup::is_silent(dictionary, "laplacianSchemes"@, "laplacian(nu,U)"@) && (lookup::says(
                dictionary,
                "laplacianSchemes"@,
                "laplacian(nuEff,U)"@,
                value,
            ) || (lookup::is_silent(dictionary, "laplacianSchemes"@, "laplacian(nuEff,U)"@)
                && lookup::says(dictionary, "laplacianSchemes"@, "default"@, value))))
                ==> schemes::laplacian_scheme(value, found.sn_grad) == Ok::<
                schemes::LaminarSimpleLaplacianScheme,
                Seq<char>,
            >(found.laplacian)
            &&& dictionary.present
        }),
{
    lookup::first_entry_is_found(dictionary, "gradSchemes"@, "grad(p)"@, value);
    lookup::first_entry_is_found(dictionary, "gradSchemes"@, "grad(U)"@, value);
    lookup::first_entry_is_found(dictionary, "gradSchemes"@, "default"@, value);
    lookup::first_entry_is_found(dictionary, "divSchemes"@, "div(phi,U)"@, value);
    lookup::first_entry_is_found(dictionary, "divSchemes"@, "default"@, value);
    lookup::first_entry_is_found(dictionary, "interpolationSchemes"@, "default"@, value);
    lookup::first_entry_is_found(dictionary, "snGradSchemes"@, "default"@, value);
    lookup::first_entry_is_found(dictionary, "laplacianSchemes"@, "laplacian(nu,U)"@, value);
    lookup::first_entry_is_found(dictionary, "laplacianSchemes"@, "laplacian(nuEff,U)"@, value);
    lookup::first_entry_is_found(dictionary, "laplacianSchemes"@, "default"@, value);
}

/// A run uses the schemes of its case.
pub proof fn run_uses_the_schemes_of_its_case(
    readings: Readings,
    plan: SolverCasePlan,
    solve: LaminarSimpleSolveView,
)
    requires
        resolved(readings, plan, solve) is Ok,
    ensures
        schemes_of(plan.numerics.fv_schemes) == Ok::<LaminarSimpleSchemes, Seq<char>>(
            resolved(readings, plan, solve)->Ok_0.schemes,
        ),
{
}

/// A pipe that is solved has the numbers that the command line gives; its viscosity
/// may be the transport property `mu`, and its walls are the named ones, or the
/// patch `wall` where none is named.
pub proof fn pipe_comes_from_the_command_line(
    readings: Readings,
    plan: SolverCasePlan,
    solve: PoiseuilleSolveView,
    value: Seq<char>,
    number: RealView,
)
    ensures
        match poiseuille_resolved(readings, plan, solve) {
            Err(_) => solve.pressure_drop is None || solve.length is None || solve.diameter is None
                || (solve.dynamic_viscosity is None && !(lookup::property_says(
                plan.properties.entries@,
                "transportProperties"@,
                "mu"@,
                value,
            ) && lookup::ends_in_number(readings, value, number))),
            Ok(found) => {
                &&& solve.pressure_drop == Some(found.pressure_drop)
                &&& solve.length == Some(found.length)
                &&& solve.diameter == Some(found.diameter)
                &&& obeyed(solve.dynamic_viscosity, found.dynamic_viscosity)
                &&& solve.dynamic_viscosity is None && lookup::property_says(
                    plan.properties.entries@,
                    "transportProperties"@,
                    "mu"@,
                    value,
                ) && lookup::ends_in_number(readings, value, number) ==> found.dynamic_viscosity
                    == number
                &&& solve.wall_patches.len() > 0 ==> found.wall_patches == solve.wall_patches
                &&& solve.wall_patches.len() == 0 ==> found.wall_patches.len() == 1
                    && found.wall_patches[0] == "wall"@
            },
        },
{
    if lookup::property_says(plan.properties.entries@, "transportProperties"@, "mu"@, value)
        && lookup::ends_in_number(readings, value, number) {
        lookup::property_is_the_last_word(
            readings,
            plan.properties.entries@,
            "transportProperties"@,
            "mu"@,
            value,
            number,
        );
    }
}

} // verus!
