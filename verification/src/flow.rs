//! Boundary treatment and control of the laminar SIMPLE solver.

use crate::checks;
use crate::error::{Failure, MeshError};
use crate::reals;
use crate::reals::Real;
use crate::runtime;
use crate::runtime::SolverRuntimeMeshData;
use crate::text;
use crate::text::CharClass;
use vstd::prelude::*;

verus! {

/// The linear solvers that a run can use.
#[derive(Clone, Copy, Debug, Eq, PartialEq, Structural)]
pub enum LaminarSimpleLinearSolver {
    Cg,
    Jacobi,
    Pcg,
    BiCgStab,
    GaussSeidel,
    SymGaussSeidel,
}

/// The preconditioners that a run can use.
#[derive(Clone, Copy, Debug, Eq, PartialEq, Structural)]
pub enum LaminarSimplePreconditioner {
    Absent,
    Diagonal,
    IncompleteCholesky,
}

/// The settings of a run through a pipe.
#[derive(Debug)]
pub struct LaminarSimpleOptions {
    pub density: Real,
    pub dynamic_viscosity: Real,
    pub pressure_drop: Real,
    pub length: Real,
    pub diameter: Real,
    pub inlet_patch: String,
    pub outlet_patch: String,
    pub linear_solver: LaminarSimpleLinearSolver,
    pub momentum_linear_solver: LaminarSimpleLinearSolver,
    pub pressure_linear_solver: LaminarSimpleLinearSolver,
    pub momentum_preconditioner: LaminarSimplePreconditioner,
    pub pressure_preconditioner: LaminarSimplePreconditioner,
    pub linear_tolerance: Real,
    pub max_linear_iterations: usize,
    pub momentum_linear_tolerance: Real,
    pub pressure_linear_tolerance: Real,
    pub momentum_max_linear_iterations: usize,
    pub pressure_max_linear_iterations: usize,
    pub max_simple_iterations: usize,
    pub min_simple_iterations: usize,
    pub simple_tolerance: Real,
    pub pressure_drop_tolerance: Real,
    pub field_change_tolerance: Real,
    pub momentum_residual_control: Option<Real>,
    pub pressure_residual_control: Option<Real>,
    pub velocity_relaxation: Real,
    pub pressure_relaxation: Real,
}

/// How many boundary faces have which treatment.
#[derive(Clone, Copy, Debug, Eq, PartialEq, Structural)]
pub struct FlowBoundarySummary {
    pub velocity_fixed_value_faces: usize,
    pub velocity_zero_gradient_faces: usize,
    pub velocity_inlet_outlet_faces: usize,
    pub velocity_constraint_faces: usize,
    pub pressure_fixed_value_faces: usize,
    pub pressure_zero_gradient_faces: usize,
    pub pressure_constraint_faces: usize,
}

/// The word for a linear solver.
pub open spec fn solver_name(solver: LaminarSimpleLinearSolver) -> Seq<char> {
    match solver {
        LaminarSimpleLinearSolver::Cg => "cg"@,
        LaminarSimpleLinearSolver::Jacobi => "jacobi"@,
        LaminarSimpleLinearSolver::Pcg => "pcg"@,
        LaminarSimpleLinearSolver::BiCgStab => "bicgstab"@,
        LaminarSimpleLinearSolver::GaussSeidel => "gaussSeidel"@,
        LaminarSimpleLinearSolver::SymGaussSeidel => "symGaussSeidel"@,
    }
}

/// The word for a preconditioner.
pub open spec fn preconditioner_name(preconditioner: LaminarSimplePreconditioner) -> Seq<char> {
    match preconditioner {
        LaminarSimplePreconditioner::Absent => "none"@,
        LaminarSimplePreconditioner::Diagonal => "diagonal"@,
        LaminarSimplePreconditioner::IncompleteCholesky => "incompleteCholesky"@,
    }
}

/// The word of a dictionary value: without white space round it and without
/// semicolons behind it.
pub open spec fn bare_word(value: Seq<char>) -> Seq<char> {
    text::strip_end(CharClass::Only(';'), text::trim(value))
}

/// The linear solver that a word names.
pub open spec fn solver_named(value: Seq<char>) -> Result<LaminarSimpleLinearSolver, Seq<char>> {
    let word = bare_word(value);
    if word == "PBiCG"@ || word == "PBiCGStab"@ || word == "BiCGStab"@ || word == "bicgstab"@ {
        Ok(LaminarSimpleLinearSolver::BiCgStab)
    } else if word == "GaussSeidel"@ || word == "gaussSeidel"@ || word == "gauss-seidel"@ {
        Ok(LaminarSimpleLinearSolver::GaussSeidel)
    } else if word == "symGaussSeidel"@ || word == "sym-gauss-seidel"@ {
        Ok(LaminarSimpleLinearSolver::SymGaussSeidel)
    } else if word == "smoothSolver"@ {
        Err(
            "OpenFOAM smoothSolver requires a smoother entry in fvSolution; use GaussSeidel or symGaussSeidel for a direct CLI override"@,
        )
    } else if word == "PCG"@ || word == "pcg"@ {
        Ok(LaminarSimpleLinearSolver::Pcg)
    } else if word == "CG"@ || word == "cg"@ {
        Ok(LaminarSimpleLinearSolver::Cg)
    } else if word == "Jacobi"@ || word == "jacobi"@ {
        Ok(LaminarSimpleLinearSolver::Jacobi)
    } else {
        Err(
            "unsupported OpenFOAM linear solver '"@ + word + "'; no fallback was applied"@,
        )
    }
}

/// The preconditioner that a word names.
pub open spec fn preconditioner_named(value: Seq<char>) -> Result<
    LaminarSimplePreconditioner,
    Seq<char>,
> {
    let word = bare_word(value);
    if word == "none"@ || word == "None"@ {
        Ok(LaminarSimplePreconditioner::Absent)
    } else if word == "DIC"@ || word == "FDIC"@ || word == "incompleteCholesky"@ || word == "ic0"@
        || word == "IC0"@ {
        Ok(LaminarSimplePreconditioner::IncompleteCholesky)
    } else if word == "diagonal"@ || word == "Diagonal"@ {
        Ok(LaminarSimplePreconditioner::Diagonal)
    } else if word == "DILU"@ {
        Err(
            "OpenFOAM DILU is not implemented yet; refusing to substitute a diagonal preconditioner"@,
        )
    } else {
        Err(
            "unsupported OpenFOAM preconditioner '"@ + word + "'; no fallback was applied"@,
        )
    }
}

/// The word of a dictionary value.
pub fn bare(value: &str) -> (word: String)
    ensures
        word@ == bare_word(value@),
{
    text::trimmed_end(text::trimmed(value).as_str(), CharClass::Only(';'))
}

/// Reads the name of a linear solver.
pub fn parse_openfoam_laminar_solver(value: &str) -> (out: Result<
    LaminarSimpleLinearSolver,
    String,
>)
    ensures
        match out {
            Ok(solver) => text::accepts(solver_named(value@), solver),
            Err(message) => text::refuses(solver_named(value@), message),
        },
{
    let found = bare(value);
    let word = found.as_str();
    if text::text_eq(word, "PBiCG") || text::text_eq(word, "PBiCGStab") || text::text_eq(
        word,
        "BiCGStab",
    ) || text::text_eq(word, "bicgstab") {
        Ok(LaminarSimpleLinearSolver::BiCgStab)
    } else if text::text_eq(word, "GaussSeidel") || text::text_eq(word, "gaussSeidel")
        || text::text_eq(word, "gauss-seidel") {
        Ok(LaminarSimpleLinearSolver::GaussSeidel)
    } else if text::text_eq(word, "symGaussSeidel") || text::text_eq(word, "sym-gauss-seidel") {
        Ok(LaminarSimpleLinearSolver::SymGaussSeidel)
    } else if text::text_eq(word, "smoothSolver") {
        Err(
            "OpenFOAM smoothSolver requires a smoother entry in fvSolution; use GaussSeidel or symGaussSeidel for a direct CLI override".to_string(),
        )
    } else if text::text_eq(word, "PCG") || text::text_eq(word, "pcg") {
        Ok(LaminarSimpleLinearSolver::Pcg)
    } else if text::text_eq(word, "CG") || text::text_eq(word, "cg") {
        Ok(LaminarSimpleLinearSolver::Cg)
    } else if text::text_eq(word, "Jacobi") || text::text_eq(word, "jacobi") {
        Ok(LaminarSimpleLinearSolver::Jacobi)
    } else {
        let mut message = "unsupported OpenFOAM linear solver '".to_string();
        message.append(word);
        message.append("'; no fallback was applied");
        Err(message)
    }
}

/// Reads the name of a preconditioner.
pub fn parse_openfoam_laminar_preconditioner(value: &str) -> (out: Result<
    LaminarSimplePreconditioner,
    String,
>)
    ensures
        match out {
            Ok(preconditioner) => text::accepts(preconditioner_named(value@), preconditioner),
            Err(message) => text::refuses(preconditioner_named(value@), message),
        },
{
    let found = bare(value);
    let word = found.as_str();
    if text::text_eq(word, "none") || text::text_eq(word, "None") {
        Ok(LaminarSimplePreconditioner::Absent)
    } else if text::text_eq(word, "DIC") || text::text_eq(word, "FDIC") || text::text_eq(
        word,
        "incompleteCholesky",
    ) || text::text_eq(word, "ic0") || text::text_eq(word, "IC0") {
        Ok(LaminarSimplePreconditioner::IncompleteCholesky)
    } else if text::text_eq(word, "diagonal") || text::text_eq(word, "Diagonal") {
        Ok(LaminarSimplePreconditioner::Diagonal)
    } else if text::text_eq(word, "DILU") {
        Err(
            "OpenFOAM DILU is not implemented yet; refusing to substitute a diagonal preconditioner".to_string(),
        )
    } else {
        let mut message = "unsupported OpenFOAM preconditioner '".to_string();
        message.append(word);
        message.append("'; no fallback was applied");
        Err(message)
    }
}

impl LaminarSimpleLinearSolver {
    /// The word for the solver.
    pub fn to_string(&self) -> (name: String)
        ensures
            name@ == solver_name(*self),
    {
        match self {
            LaminarSimpleLinearSolver::Cg => "cg".to_string(),
            LaminarSimpleLinearSolver::Jacobi => "jacobi".to_string(),
            LaminarSimpleLinearSolver::Pcg => "pcg".to_string(),
            LaminarSimpleLinearSolver::BiCgStab => "bicgstab".to_string(),
            LaminarSimpleLinearSolver::GaussSeidel => "gaussSeidel".to_string(),
            LaminarSimpleLinearSolver::SymGaussSeidel => "symGaussSeidel".to_string(),
        }
    }
}

impl LaminarSimplePreconditioner {
    /// The word for the preconditioner.
    pub fn to_string(&self) -> (name: String)
        ensures
            name@ == preconditioner_name(*self),
    {
        match self {
            LaminarSimplePreconditioner::Absent => "none".to_string(),
            LaminarSimplePreconditioner::Diagonal => "diagonal".to_string(),
            LaminarSimplePreconditioner::IncompleteCholesky => "incompleteCholesky".to_string(),
        }
    }
}

/// A word without white space at its ends and without a semicolon at its end
/// is bare.
proof fn lemma_bare(word: Seq<char>)
    requires
        word.len() > 0,
        !text::is_space(word[0]),
        !text::is_space(word.last()),
        word.last() != ';',
    ensures
        bare_word(word) == word,
{
}

/// The name of a linear solver is read as that solver.
pub proof fn solver_name_is_read(solver: LaminarSimpleLinearSolver)
    ensures
        solver_named(solver_name(solver)) == Ok::<LaminarSimpleLinearSolver, Seq<char>>(solver),
{
    reveal_strlit("PBiCG");
    reveal_strlit("PBiCGStab");
    reveal_strlit("BiCGStab");
    reveal_strlit("bicgstab");
    reveal_strlit("GaussSeidel");
    reveal_strlit("gaussSeidel");
    reveal_strlit("gauss-seidel");
    reveal_strlit("symGaussSeidel");
    reveal_strlit("sym-gauss-seidel");
    reveal_strlit("smoothSolver");
    reveal_strlit("PCG");
    reveal_strlit("pcg");
    reveal_strlit("CG");
    reveal_strlit("cg");
    reveal_strlit("Jacobi");
    reveal_strlit("jacobi");
    lemma_bare(solver_name(solver));
    assert("gaussSeidel"@.len() == 11 && "PCG"@[0] != "pcg"@[0] && "CG"@[0] != "cg"@[0]);
    assert("symGaussSeidel"@.len() == 14 && "jacobi"@[0] != "Jacobi"@[0]);
}

/// The name of a preconditioner is read as that preconditioner.
pub proof fn preconditioner_name_is_read(preconditioner: LaminarSimplePreconditioner)
    ensures
        preconditioner_named(preconditioner_name(preconditioner)) == Ok::<
            LaminarSimplePreconditioner,
            Seq<char>,
        >(preconditioner),
{
    reveal_strlit("none");
    reveal_strlit("None");
    reveal_strlit("DIC");
    reveal_strlit("FDIC");
    reveal_strlit("incompleteCholesky");
    reveal_strlit("ic0");
    reveal_strlit("IC0");
    reveal_strlit("diagonal");
    reveal_strlit("Diagonal");
    lemma_bare(preconditioner_name(preconditioner));
    assert("diagonal"@.len() == 8);
}

/// Whether a preconditioner goes with a linear solver.
pub open spec fn pairing_checked(
    name: Seq<char>,
    solver: LaminarSimpleLinearSolver,
    preconditioner: LaminarSimplePreconditioner,
) -> Result<(), Failure> {
    checks::unless(
        preconditioner == LaminarSimplePreconditioner::Absent || solver
            == LaminarSimpleLinearSolver::Pcg,
        "laminar SIMPLE "@ + name + " preconditioner "@ + preconditioner_name(preconditioner)
            + " requires pcg solver, got "@ + solver_name(solver),
    )
}

/// Whether the numbers of the settings describe a flow.
pub open spec fn physics_checked(options: LaminarSimpleOptions) -> Result<(), Failure> {
    checks::both(
        checks::positive(
            "laminar SIMPLE density must be positive and finite, got "@,
            options.density@,
        ),
        checks::both(
            checks::positive(
                "laminar SIMPLE dynamic viscosity must be positive and finite, got "@,
                options.dynamic_viscosity@,
            ),
            checks::both(
                checks::positive(
                    "laminar SIMPLE pressure drop must be positive and finite, got "@,
                    options.pressure_drop@,
                ),
                checks::both(
                    checks::positive(
                        "laminar SIMPLE length must be positive and finite, got "@,
                        options.length@,
                    ),
                    checks::positive(
                        "laminar SIMPLE diameter must be positive and finite, got "@,
                        options.diameter@,
                    ),
                ),
            ),
        ),
    )
}

/// Whether the limits of the iterations can be met.
pub open spec fn limits_checked(options: LaminarSimpleOptions) -> Result<(), Failure> {
    checks::both(
        checks::unless(
            options.max_linear_iterations > 0 && options.momentum_max_linear_iterations > 0
                && options.pressure_max_linear_iterations > 0 && options.max_simple_iterations > 0
                && options.min_simple_iterations > 0,
            "laminar SIMPLE iteration limits must be greater than zero"@,
        ),
        checks::unless(
            options.min_simple_iterations <= options.max_simple_iterations,
            "laminar SIMPLE minSimpleIterations must not exceed maxSimpleIterations, got "@
                + text::decimal(options.min_simple_iterations as nat) + " > "@ + text::decimal(
                options.max_simple_iterations as nat,
            ),
        ),
    )
}

/// What is said of the tolerance of the linear solver of an equation.
pub open spec fn tolerance_line(name: Seq<char>) -> Seq<char> {
    "laminar SIMPLE "@ + name + " linear tolerance must be non-negative and finite, got "@
}

/// Whether the linear solvers can be used as the settings say.
pub open spec fn linear_checked(options: LaminarSimpleOptions) -> Result<(), Failure> {
    checks::both(
        checks::non_negative(
            "laminar SIMPLE linear tolerance must be non-negative and finite, got "@,
            options.linear_tolerance@,
        ),
        checks::both(
            checks::non_negative(
                tolerance_line("momentum"@),
                options.momentum_linear_tolerance@,
            ),
            checks::both(
                checks::non_negative(
                    tolerance_line("pressure"@),
                    options.pressure_linear_tolerance@,
                ),
                checks::both(
                    pairing_checked(
                        "momentum"@,
                        options.momentum_linear_solver,
                        options.momentum_preconditioner,
                    ),
                    pairing_checked(
                        "pressure"@,
                        options.pressure_linear_solver,
                        options.pressure_preconditioner,
                    ),
                ),
            ),
        ),
    )
}

/// What is said of a relaxation factor.
pub open spec fn relaxation_line(name: Seq<char>) -> Seq<char> {
    "laminar SIMPLE "@ + name + " relaxation must be in (0, 1], got "@
}

/// Whether the tolerances, limits and factors of the iterations can be used.
pub open spec fn control_checked(options: LaminarSimpleOptions) -> Result<(), Failure> {
    checks::both(
        checks::non_negative(
            "laminar SIMPLE tolerance must be non-negative and finite, got "@,
            options.simple_tolerance@,
        ),
        checks::both(
            checks::non_negative(
                "laminar SIMPLE pressure-drop tolerance must be non-negative and finite, got "@,
                options.pressure_drop_tolerance@,
            ),
            checks::both(
                checks::non_negative(
                    "laminar SIMPLE field-change tolerance must be non-negative and finite, got "@,
                    options.field_change_tolerance@,
                ),
                checks::both(
                    checks::opt_non_negative(
                        "laminar SIMPLE U residualControl must be non-negative and finite, got "@,
                        reals::opt_real(options.momentum_residual_control),
                    ),
                    checks::both(
                        checks::opt_non_negative(
                            "laminar SIMPLE p residualControl must be non-negative and finite, got "@,
                            reals::opt_real(options.pressure_residual_control),
                        ),
                        checks::both(
                            checks::fraction(
                                relaxation_line("velocity"@),
                                options.velocity_relaxation@,
                            ),
                            checks::fraction(
                                relaxation_line("pressure"@),
                                options.pressure_relaxation@,
                            ),
                        ),
                    ),
                ),
            ),
        ),
    )
}

/// Whether a run can start with these settings.
pub open spec fn options_checked(options: LaminarSimpleOptions) -> Result<(), Failure> {
    checks::both(
        physics_checked(options),
        checks::both(
            limits_checked(options),
            checks::both(
                linear_checked(options),
                checks::both(
                    control_checked(options),
                    checks::unless(
                        text::trim(options.inlet_patch@).len() != 0 && text::trim(
                            options.outlet_patch@,
                        ).len() != 0,
                        "laminar SIMPLE inlet and outlet patch names must not be empty"@,
                    ),
                ),
            ),
        ),
    )
}

fn check_physics(options: &LaminarSimpleOptions) -> (out: Result<(), MeshError>)
    ensures
        checks::agrees(out, physics_checked(*options)),
{
    checks::check_positive(
        "laminar SIMPLE density must be positive and finite, got ",
        &options.density,
    )?;
    checks::check_positive(
        "laminar SIMPLE dynamic viscosity must be positive and finite, got ",
        &options.dynamic_viscosity,
    )?;
    checks::check_positive(
        "laminar SIMPLE pressure drop must be positive and finite, got ",
        &options.pressure_drop,
    )?;
    checks::check_positive(
        "laminar SIMPLE length must be positive and finite, got ",
        &options.length,
    )?;
    checks::check_positive(
        "laminar SIMPLE diameter must be positive and finite, got ",
        &options.diameter,
    )?;
    Ok(())
}

fn check_limits(options: &LaminarSimpleOptions) -> (out: Result<(), MeshError>)
    ensures
        checks::agrees(out, limits_checked(*options)),
{
    checks::check(
        options.max_linear_iterations > 0 && options.momentum_max_linear_iterations > 0
            && options.pressure_max_linear_iterations > 0 && options.max_simple_iterations > 0
            && options.min_simple_iterations > 0,
        "laminar SIMPLE iteration limits must be greater than zero",
    )?;
    let mut message =
        "laminar SIMPLE minSimpleIterations must not exceed maxSimpleIterations, got ".to_string();
    message.append(text::number_text(options.min_simple_iterations).as_str());
    message.append(" > ");
    message.append(text::number_text(options.max_simple_iterations).as_str());
    checks::check(
        options.min_simple_iterations <= options.max_simple_iterations,
        message.as_str(),
    )?;
    Ok(())
}

/// Whether a preconditioner goes with a linear solver.
pub fn validate_solver_preconditioner(
    name: &str,
    solver: LaminarSimpleLinearSolver,
    preconditioner: LaminarSimplePreconditioner,
) -> (out: Result<(), MeshError>)
    ensures
        checks::agrees(out, pairing_checked(name@, solver, preconditioner)),
{
    let mut message = "laminar SIMPLE ".to_string();
    message.append(name);
    message.append(" preconditioner ");
    message.append(preconditioner.to_string().as_str());
    message.append(" requires pcg solver, got ");
    message.append(solver.to_string().as_str());
    checks::check(
        preconditioner == LaminarSimplePreconditioner::Absent || solver
            == LaminarSimpleLinearSolver::Pcg,
        message.as_str(),
    )
}

/// Whether the tolerance of the linear solver of an equation can be used.
pub fn validate_linear_tolerance(name: &str, value: &Real) -> (out: Result<(), MeshError>)
    ensures
        checks::agrees(out, checks::non_negative(tolerance_line(name@), value@)),
{
    let mut message = "laminar SIMPLE ".to_string();
    message.append(name);
    message.append(" linear tolerance must be non-negative and finite, got ");
    checks::check_non_negative(message.as_str(), value)
}

/// Whether a relaxation factor can be used.
pub fn validate_relaxation(name: &str, value: &Real) -> (out: Result<(), MeshError>)
    ensures
        checks::agrees(out, checks::fraction(relaxation_line(name@), value@)),
{
    let mut message = "laminar SIMPLE ".to_string();
    message.append(name);
    message.append(" relaxation must be in (0, 1], got ");
    checks::check_fraction(message.as_str(), value)
}

fn check_linear(options: &LaminarSimpleOptions) -> (out: Result<(), MeshError>)
    ensures
        checks::agrees(out, linear_checked(*options)),
{
    checks::check_non_negative(
        "laminar SIMPLE linear tolerance must be non-negative and finite, got ",
        &options.linear_tolerance,
    )?;
    validate_linear_tolerance("momentum", &options.momentum_linear_tolerance)?;
    validate_linear_tolerance("pressure", &options.pressure_linear_tolerance)?;
    validate_solver_preconditioner(
        "momentum",
        options.momentum_linear_solver,
        options.momentum_preconditioner,
    )?;
    validate_solver_preconditioner(
        "pressure",
        options.pressure_linear_solver,
        options.pressure_preconditioner,
    )?;
    Ok(())
}

fn check_control(options: &LaminarSimpleOptions) -> (out: Result<(), MeshError>)
    ensures
        checks::agrees(out, control_checked(*options)),
{
    checks::check_non_negative(
        "laminar SIMPLE tolerance must be non-negative and finite, got ",
        &options.simple_tolerance,
    )?;
    checks::check_non_negative(
        "laminar SIMPLE pressure-drop tolerance must be non-negative and finite, got ",
        &options.pressure_drop_tolerance,
    )?;
    checks::check_non_negative(
        "laminar SIMPLE field-change tolerance must be non-negative and finite, got ",
        &options.field_change_tolerance,
    )?;
    checks::check_opt_non_negative(
        "laminar SIMPLE U residualControl must be non-negative and finite, got ",
        &options.momentum_residual_control,
    )?;
    checks::check_opt_non_negative(
        "laminar SIMPLE p residualControl must be non-negative and finite, got ",
        &options.pressure_residual_control,
    )?;
    validate_relaxation("velocity", &options.velocity_relaxation)?;
    validate_relaxation("pressure", &options.pressure_relaxation)?;
    Ok(())
}

/// Whether a run can start with these settings.
pub fn validate_laminar_simple_options(options: &LaminarSimpleOptions) -> (out: Result<
    (),
    MeshError,
>)
    ensures
        checks::agrees(out, options_checked(*options)),
{
    check_physics(options)?;
    check_limits(options)?;
    check_linear(options)?;
    check_control(options)?;
    checks::check(
        !text::is_blank(options.inlet_patch.as_str()) && !text::is_blank(
            options.outlet_patch.as_str(),
        ),
        "laminar SIMPLE inlet and outlet patch names must not be empty",
    )
}

/// The message on a face whose `what` is not a cell.
pub open spec fn beyond_line(face: nat, what: Seq<char>, cell: nat, cells: nat) -> Seq<char> {
    "runtime mesh face "@ + text::decimal(face) + " "@ + what + " "@ + text::decimal(cell)
        + " exceeds cell count "@ + text::decimal(cells)
}

fn beyond_error(face: usize, what: &str, cell: usize, cells: usize) -> (error: MeshError)
    ensures
        error@ == Failure::InvalidInput(
            beyond_line(face as nat, what@, cell as nat, cells as nat),
        ),
{
    let mut message = "runtime mesh face ".to_string();
    message.append(text::number_text(face).as_str());
    message.append(" ");
    message.append(what);
    message.append(" ");
    message.append(text::number_text(cell).as_str());
    message.append(" exceeds cell count ");
    message.append(text::number_text(cells).as_str());
    MeshError::InvalidInput(message)
}

/// Whether the faces from `at` on lie between the cells of the mesh.
pub open spec fn faces_checked<P, S>(mesh: SolverRuntimeMeshData<P, S>, at: int) -> Result<
    (),
    Failure,
>
    decreases mesh.owner@.len() - at,
{
    if at >= mesh.owner@.len() {
        Ok(())
    } else if mesh.owner@[at] >= mesh.cells {
        Err(
            Failure::InvalidInput(
                beyond_line(at as nat, "owner"@, mesh.owner@[at] as nat, mesh.cells as nat),
            ),
        )
    } else {
        match mesh.neighbour@[at] {
            Some(cell) => if cell >= mesh.cells {
                Err(
                    Failure::InvalidInput(
                        beyond_line(at as nat, "neighbour"@, cell as nat, mesh.cells as nat),
                    ),
                )
            } else {
                faces_checked(mesh, at + 1)
            },
            None => faces_checked(mesh, at + 1),
        }
    }
}

/// Whether a run can use a mesh.
pub open spec fn mesh_checked<P, S>(mesh: SolverRuntimeMeshData<P, S>) -> Result<(), Failure> {
    checks::both(
        checks::unless(
            mesh.owner@.len() == mesh.faces && mesh.neighbour@.len() == mesh.faces
                && mesh.face_centres@.len() == mesh.faces && mesh.face_area_vectors@.len()
                == mesh.faces,
            "runtime mesh face arrays are inconsistent"@,
        ),
        checks::both(
            checks::unless(
                mesh.cell_centres@.len() == mesh.cells && mesh.cell_volumes@.len() == mesh.cells,
                "runtime mesh cell arrays are inconsistent"@,
            ),
            faces_checked(mesh, 0),
        ),
    )
}

/// Whether a run can use a mesh.
pub fn validate_runtime_mesh<P, S>(mesh: &SolverRuntimeMeshData<P, S>) -> (out: Result<
    (),
    MeshError,
>)
    ensures
        checks::agrees(out, mesh_checked(*mesh)),
        out is Ok ==> runtime::sound(*mesh),
{
    checks::check(
        mesh.owner.len() == mesh.faces && mesh.neighbour.len() == mesh.faces
            && mesh.face_centres.len() == mesh.faces && mesh.face_area_vectors.len() == mesh.faces,
        "runtime mesh face arrays are inconsistent",
    )?;
    checks::check(
        mesh.cell_centres.len() == mesh.cells && mesh.cell_volumes.len() == mesh.cells,
        "runtime mesh cell arrays are inconsistent",
    )?;
    let mut at: usize = 0;
    while at < mesh.owner.len()
        invariant
            at <= mesh.owner@.len(),
            mesh.owner@.len() == mesh.faces,
            mesh.neighbour@.len() == mesh.faces,
            mesh.face_centres@.len() == mesh.faces,
            mesh.face_area_vectors@.len() == mesh.faces,
            mesh.cell_centres@.len() == mesh.cells,
            mesh.cell_volumes@.len() == mesh.cells,
            faces_checked(*mesh, 0) == faces_checked(*mesh, at as int),
            forall|i: int| 0 <= i < at ==> #[trigger] mesh.owner@[i] < mesh.cells,
            forall|i: int|
                0 <= i < at ==> match #[trigger] mesh.neighbour@[i] {
                    Some(cell) => cell < mesh.cells,
                    None => true,
                },
        decreases mesh.owner@.len() - at,
    {
        if mesh.owner[at] >= mesh.cells {
            return Err(beyond_error(at, "owner", mesh.owner[at], mesh.cells));
        }
        if let Some(cell) = mesh.neighbour[at] {
            if cell >= mesh.cells {
                return Err(beyond_error(at, "neighbour", cell, mesh.cells));
            }
        }
        at += 1;
    }
    Ok(())
}

/// Whether a number is finite and above zero.
pub open spec fn is_size(value: reals::RealView) -> bool {
    value.kind == reals::RealKind::UpToOne || value.kind == reals::RealKind::AboveOne
}

/// Whether a number is finite and not below zero.
pub open spec fn is_tolerance(value: reals::RealView) -> bool {
    value.kind == reals::RealKind::Zero || is_size(value)
}

/// A run can start exactly where the fluid and the pipe have sizes, every limit of
/// iterations allows one and the least is not above the most, tolerances and
/// residual limits are not below zero, relaxation lies above zero and up to one, a
/// preconditioner goes with conjugate gradients only, and both ends have names.
pub proof fn run_starts_iff_settings_are_usable(options: LaminarSimpleOptions)
    ensures
        options_checked(options) is Ok <==> {
            &&& is_size(options.density@) && is_size(options.dynamic_viscosity@)
            &&& is_size(options.pressure_drop@) && is_size(options.length@) && is_size(
                options.diameter@,
            )
            &&& options.max_linear_iterations >= 1 && options.momentum_max_linear_iterations >= 1
                && options.pressure_max_linear_iterations >= 1
            &&& 1 <= options.min_simple_iterations <= options.max_simple_iterations
            &&& is_tolerance(options.linear_tolerance@) && is_tolerance(
                options.momentum_linear_tolerance@,
            ) && is_tolerance(options.pressure_linear_tolerance@)
            &&& is_tolerance(options.simple_tolerance@) && is_tolerance(
                options.pressure_drop_tolerance@,
            ) && is_tolerance(options.field_change_tolerance@)
            &&& (options.momentum_residual_control matches Some(limit) ==> is_tolerance(limit@))
            &&& (options.pressure_residual_control matches Some(limit) ==> is_tolerance(limit@))
            &&& options.velocity_relaxation@.kind == reals::RealKind::UpToOne
            &&& options.pressure_relaxation@.kind == reals::RealKind::UpToOne
            &&& options.momentum_preconditioner == LaminarSimplePreconditioner::Absent
                || options.momentum_linear_solver == LaminarSimpleLinearSolver::Pcg
            &&& options.pressure_preconditioner == LaminarSimplePreconditioner::Absent
                || options.pressure_linear_solver == LaminarSimpleLinearSolver::Pcg
            &&& text::trim(options.inlet_patch@).len() > 0 && text::trim(options.outlet_patch@).len()
                > 0
        },
{
}

/// A run can use a mesh exactly where its arrays have an entry for each face or
/// cell, and every owner and neighbour is a cell.
pub proof fn mesh_is_taken_iff_sound<P, S>(mesh: SolverRuntimeMeshData<P, S>)
    ensures
        mesh_checked(mesh) is Ok <==> {
            &&& mesh.owner@.len() == mesh.faces
            &&& mesh.neighbour@.len() == mesh.faces
            &&& mesh.face_centres@.len() == mesh.faces
            &&& mesh.face_area_vectors@.len() == mesh.faces
            &&& mesh.cell_centres@.len() == mesh.cells
            &&& mesh.cell_volumes@.len() == mesh.cells
            &&& forall|i: int|
                0 <= i < mesh.faces ==> #[trigger] mesh.owner@[i] < mesh.cells && (
                mesh.neighbour@[i] matches Some(cell) ==> cell < mesh.cells)
        },
{
    if mesh.owner@.len() == mesh.faces && mesh.neighbour@.len() == mesh.faces {
        lemma_faces_checked(mesh, 0);
    }
}

proof fn lemma_faces_checked<P, S>(mesh: SolverRuntimeMeshData<P, S>, from: int)
    requires
        0 <= from <= mesh.owner@.len(),
    ensures
        faces_checked(mesh, from) is Ok <==> forall|i: int|
            from <= i < mesh.owner@.len() ==> #[trigger] mesh.owner@[i] < mesh.cells && (
            mesh.neighbour@[i] matches Some(cell) ==> cell < mesh.cells),
    decreases mesh.owner@.len() - from,
{
    if from < mesh.owner@.len() {
        lemma_faces_checked(mesh, from + 1);
        let owner = mesh.owner@[from];
        if faces_checked(mesh, from) is Err && faces_checked(mesh, from + 1) is Ok {
            assert(!(mesh.owner@[from] < mesh.cells && (mesh.neighbour@[from] matches Some(cell)
                ==> cell < mesh.cells)));
        }
    }
}

/// Each solver is chosen by its own words and by no others, whatever white space
/// and semicolons stand around them.
pub proof fn solver_words(value: Seq<char>)
    ensures
        ({
            let word = bare_word(value);
            match solver_named(value) {
                Ok(LaminarSimpleLinearSolver::BiCgStab) => word == "PBiCG"@ || word == "PBiCGStab"@
                    || word == "BiCGStab"@ || word == "bicgstab"@,
                Ok(LaminarSimpleLinearSolver::GaussSeidel) => word == "GaussSeidel"@ || word
                    == "gaussSeidel"@ || word == "gauss-seidel"@,
                Ok(LaminarSimpleLinearSolver::SymGaussSeidel) => word == "symGaussSeidel"@ || word
                    == "sym-gauss-seidel"@,
                Ok(LaminarSimpleLinearSolver::Pcg) => word == "PCG"@ || word == "pcg"@,
                Ok(LaminarSimpleLinearSolver::Cg) => word == "CG"@ || word == "cg"@,
                Ok(LaminarSimpleLinearSolver::Jacobi) => word == "Jacobi"@ || word == "jacobi"@,
                Err(_) => word != "PBiCG"@ && word != "PBiCGStab"@ && word != "BiCGStab"@ && word
                    != "bicgstab"@ && word != "GaussSeidel"@ && word != "gaussSeidel"@ && word
                    != "gauss-seidel"@ && word != "symGaussSeidel"@ && word != "sym-gauss-seidel"@
                    && word != "PCG"@ && word != "pcg"@ && word != "CG"@ && word != "cg"@ && word
                    != "Jacobi"@ && word != "jacobi"@,
            }
        }),
        ({
            let word = bare_word(value);
            match preconditioner_named(value) {
                Ok(LaminarSimplePreconditioner::Absent) => word == "none"@ || word == "None"@,
                Ok(LaminarSimplePreconditioner::IncompleteCholesky) => word == "DIC"@ || word
                    == "FDIC"@ || word == "incompleteCholesky"@ || word == "ic0"@ || word == "IC0"@,
                Ok(LaminarSimplePreconditioner::Diagonal) => word == "diagonal"@ || word
                    == "Diagonal"@,
                Err(_) => word != "none"@ && word != "None"@ && word != "DIC"@ && word != "FDIC"@
                    && word != "incompleteCholesky"@ && word != "ic0"@ && word != "IC0"@ && word
                    != "diagonal"@ && word != "Diagonal"@,
            }
        }),
{
    reveal_strlit("smoothSolver");
    reveal_strlit("PCG");
    reveal_strlit("pcg");
    reveal_strlit("CG");
    reveal_strlit("cg");
    reveal_strlit("Jacobi");
    reveal_strlit("jacobi");
    assert("smoothSolver"@.len() == 12 && "PCG"@.len() == 3 && "pcg"@.len() == 3);
    assert("CG"@.len() == 2 && "cg"@.len() == 2 && "Jacobi"@.len() == 6 && "jacobi"@.len() == 6);
}

} // verus!
