//! Flows with known solutions: through a pipe and between parallel plates.

use crate::checks;
use crate::dictionary;
use crate::diffusion;
use crate::diffusion::{
    DiffusionView, ScalarBoundaryCondition, ScalarDiffusionOptions, ScalarPatchBoundaryCondition,
};
use crate::error::{Failure, MeshError};
use crate::plan::SolverRuntimePatchRange;
use crate::reals;
use crate::reals::{Real, RealKind, RealView};
use crate::runtime;
use crate::runtime::SolverRuntimeMeshData;
use crate::text;
use vstd::prelude::*;

verus! {

/// The flow through a pipe.
#[derive(Debug)]
pub struct PoiseuilleOptions {
    pub pressure_drop: Real,
    pub dynamic_viscosity: Real,
    pub length: Real,
    pub diameter: Real,
    pub wall_patches: Vec<String>,
}

/// The direction of a flow.
#[derive(Clone, Copy, Debug, Eq, PartialEq, Structural)]
pub enum PipeAxis {
    X,
    Y,
    Z,
}

/// A pipe whose flow is compared with the known solution.
#[derive(Debug)]
pub struct LaminarPipeBenchmarkOptions {
    pub pressure_drop: Real,
    pub dynamic_viscosity: Real,
    pub length: Real,
    pub diameter: Real,
    pub inlet_patch: String,
    pub outlet_patch: String,
    pub axis: PipeAxis,
}

/// How a flow through a pipe compares with the known solution.
#[derive(Debug)]
pub struct LaminarPipeBenchmarkSummary {
    pub min_velocity: Real,
    pub max_velocity: Real,
    pub mean_velocity: Real,
    pub flow_rate: Real,
    pub analytic_mean_velocity: Real,
    pub analytic_flow_rate: Real,
    pub pressure_drop_from_mean: Real,
    pub pressure_drop_from_owner_cells: Real,
    pub relative_mean_velocity_error: Real,
    pub relative_pressure_drop_from_mean_error: Real,
    pub relative_pressure_drop_from_owner_cells_error: Real,
}

/// A channel whose flow is compared with the known solution.
#[derive(Debug)]
pub struct LaminarPlaneChannelBenchmarkOptions {
    pub pressure_drop: Real,
    pub dynamic_viscosity: Real,
    pub length: Real,
    pub gap: Real,
    pub depth: Real,
    pub inlet_patch: String,
    pub outlet_patch: String,
    pub axis: PipeAxis,
}

/// How a flow through a channel compares with the known solution.
#[derive(Debug)]
pub struct LaminarPlaneChannelBenchmarkSummary {
    pub min_velocity: Real,
    pub max_velocity: Real,
    pub mean_velocity: Real,
    pub flow_rate: Real,
    pub flow_rate_per_unit_depth: Real,
    pub analytic_mean_velocity: Real,
    pub analytic_flow_rate: Real,
    pub analytic_flow_rate_per_unit_depth: Real,
    pub pressure_drop_from_mean: Real,
    pub pressure_drop_from_owner_cells: Real,
    pub relative_mean_velocity_error: Real,
    pub relative_pressure_drop_from_mean_error: Real,
    pub relative_pressure_drop_from_owner_cells_error: Real,
}

/// The letter of a direction.
pub open spec fn axis_name(axis: PipeAxis) -> Seq<char> {
    match axis {
        PipeAxis::X => "x"@,
        PipeAxis::Y => "y"@,
        PipeAxis::Z => "z"@,
    }
}

/// The direction that a letter names.
pub open spec fn axis_named(value: Seq<char>) -> Result<PipeAxis, Seq<char>> {
    let word = text::lowered(value);
    if word == "x"@ {
        Ok(PipeAxis::X)
    } else if word == "y"@ {
        Ok(PipeAxis::Y)
    } else if word == "z"@ {
        Ok(PipeAxis::Z)
    } else {
        Err("invalid --axis '"@ + word + "'; expected x, y, or z"@)
    }
}

/// The letter of a direction is read as that direction.
pub proof fn axis_name_is_read(axis: PipeAxis)
    ensures
        axis_named(axis_name(axis)) == Ok::<PipeAxis, Seq<char>>(axis),
{
    reveal_strlit("x");
    reveal_strlit("y");
    reveal_strlit("z");
    assert(text::lowered(axis_name(axis)) =~= axis_name(axis));
    assert("x"@[0] == 'x' && "y"@[0] == 'y' && "z"@[0] == 'z');
}

/// The letter of a direction.
pub fn pipe_axis_name(axis: PipeAxis) -> (name: &'static str)
    ensures
        name@ == axis_name(axis),
{
    match axis {
        PipeAxis::X => "x",
        PipeAxis::Y => "y",
        PipeAxis::Z => "z",
    }
}

/// Reads the letter of a direction.
pub fn parse_pipe_axis(value: &str) -> (out: Result<PipeAxis, String>)
    ensures
        match out {
            Ok(axis) => text::accepts(axis_named(value@), axis),
            Err(message) => text::refuses(axis_named(value@), message),
        },
{
    let word = text::lowercase(value);
    if text::text_eq(word.as_str(), "x") {
        Ok(PipeAxis::X)
    } else if text::text_eq(word.as_str(), "y") {
        Ok(PipeAxis::Y)
    } else if text::text_eq(word.as_str(), "z") {
        Ok(PipeAxis::Z)
    } else {
        let mut message = "invalid --axis '".to_string();
        message.append(word.as_str());
        message.append("'; expected x, y, or z");
        Err(message)
    }
}

/// Whether the numbers describe a flow through a pipe.
pub open spec fn pipe_checked(
    pressure_drop: RealView,
    dynamic_viscosity: RealView,
    length: RealView,
    diameter: RealView,
) -> Result<(), Failure> {
    checks::both(
        checks::positive(
            "Poiseuille pressure drop must be positive and finite, got "@,
            pressure_drop,
        ),
        checks::both(
            checks::positive(
                "Poiseuille dynamic viscosity must be positive and finite, got "@,
                dynamic_viscosity,
            ),
            checks::both(
                checks::positive("Poiseuille length must be positive and finite, got "@, length),
                checks::positive(
                    "Poiseuille diameter must be positive and finite, got "@,
                    diameter,
                ),
            ),
        ),
    )
}

/// Whether the patches from `at` on have names.
pub open spec fn walls_checked(patches: Seq<Seq<char>>, at: int) -> Result<(), Failure>
    decreases patches.len() - at,
{
    if at >= patches.len() {
        Ok(())
    } else if text::trim(patches[at]).len() == 0 {
        Err(Failure::InvalidInput("Poiseuille wall patch name must not be empty"@))
    } else {
        walls_checked(patches, at + 1)
    }
}

/// Whether a flow through a pipe can be solved.
pub open spec fn poiseuille_checked(options: PoiseuilleOptions) -> Result<(), Failure> {
    let walls = text::texts(options.wall_patches@);
    checks::both(
        pipe_checked(
            options.pressure_drop@,
            options.dynamic_viscosity@,
            options.length@,
            options.diameter@,
        ),
        checks::both(
            checks::unless(
                walls.len() > 0,
                "Poiseuille solve requires at least one wall patch"@,
            ),
            walls_checked(walls, 0),
        ),
    )
}

/// Whether a flow through a pipe can be compared with the known solution.
pub open spec fn pipe_benchmark_checked(options: LaminarPipeBenchmarkOptions) -> Result<
    (),
    Failure,
> {
    checks::both(
        pipe_checked(
            options.pressure_drop@,
            options.dynamic_viscosity@,
            options.length@,
            options.diameter@,
        ),
        checks::unless(
            text::trim(options.inlet_patch@).len() != 0 && text::trim(options.outlet_patch@).len()
                != 0,
            "laminar pipe benchmark inlet and outlet patch names must not be empty"@,
        ),
    )
}

/// What is said of a number of a channel.
pub open spec fn channel_line(name: Seq<char>) -> Seq<char> {
    "laminar plane-channel benchmark "@ + name + " must be positive and finite, got "@
}

/// Whether a flow through a channel can be compared with the known solution.
pub open spec fn channel_benchmark_checked(options: LaminarPlaneChannelBenchmarkOptions) -> Result<
    (),
    Failure,
> {
    checks::both(
        checks::positive(channel_line("pressure drop"@), options.pressure_drop@),
        checks::both(
            checks::positive(channel_line("dynamic viscosity"@), options.dynamic_viscosity@),
            checks::both(
                checks::positive(channel_line("length"@), options.length@),
                checks::both(
                    checks::positive(channel_line("gap"@), options.gap@),
                    checks::both(
                        checks::positive(channel_line("depth"@), options.depth@),
                        checks::unless(
                            text::trim(options.inlet_patch@).len() != 0 && text::trim(
                                options.outlet_patch@,
                            ).len() != 0,
                            "laminar plane-channel benchmark inlet and outlet patch names must not be empty"@,
                        ),
                    ),
                ),
            ),
        ),
    )
}

/// Whether the numbers describe a flow through a pipe.
pub fn validate_hagen_poiseuille_inputs(
    pressure_drop: &Real,
    dynamic_viscosity: &Real,
    length: &Real,
    diameter: &Real,
) -> (out: Result<(), MeshError>)
    ensures
        checks::agrees(
            out,
            pipe_checked(pressure_drop@, dynamic_viscosity@, length@, diameter@),
        ),
{
    checks::check_positive(
        "Poiseuille pressure drop must be positive and finite, got ",
        pressure_drop,
    )?;
    checks::check_positive(
        "Poiseuille dynamic viscosity must be positive and finite, got ",
        dynamic_viscosity,
    )?;
    checks::check_positive("Poiseuille length must be positive and finite, got ", length)?;
    checks::check_positive("Poiseuille diameter must be positive and finite, got ", diameter)
}

/// Whether a flow through a pipe can be solved.
pub fn validate_poiseuille_options(options: &PoiseuilleOptions) -> (out: Result<(), MeshError>)
    ensures
        checks::agrees(out, poiseuille_checked(*options)),
{
    validate_hagen_poiseuille_inputs(
        &options.pressure_drop,
        &options.dynamic_viscosity,
        &options.length,
        &options.diameter,
    )?;
    let walls = &options.wall_patches;
    let ghost all = text::texts(walls@);
    checks::check(walls.len() > 0, "Poiseuille solve requires at least one wall patch")?;
    let mut at: usize = 0;
    while at < walls.len()
        invariant
            at <= walls@.len(),
            all == text::texts(walls@),
            poiseuille_checked(*options) == walls_checked(all, 0),
            walls_checked(all, 0) == walls_checked(all, at as int),
        decreases walls@.len() - at,
    {
        if text::is_blank(walls[at].as_str()) {
            return Err(
                MeshError::InvalidInput("Poiseuille wall patch name must not be empty".to_string()),
            );
        }
        at += 1;
    }
    Ok(())
}

/// Whether a flow through a pipe can be compared with the known solution.
pub fn validate_laminar_pipe_benchmark_options(options: &LaminarPipeBenchmarkOptions) -> (out:
    Result<(), MeshError>)
    ensures
        checks::agrees(out, pipe_benchmark_checked(*options)),
{
    validate_hagen_poiseuille_inputs(
        &options.pressure_drop,
        &options.dynamic_viscosity,
        &options.length,
        &options.diameter,
    )?;
    checks::check(
        !text::is_blank(options.inlet_patch.as_str()) && !text::is_blank(
            options.outlet_patch.as_str(),
        ),
        "laminar pipe benchmark inlet and outlet patch names must not be empty",
    )
}

fn check_channel_number(name: &str, value: &Real) -> (out: Result<(), MeshError>)
    ensures
        checks::agrees(out, checks::positive(channel_line(name@), value@)),
{
    let mut message = "laminar plane-channel benchmark ".to_string();
    message.append(name);
    message.append(" must be positive and finite, got ");
    checks::check_positive(message.as_str(), value)
}

/// Whether a flow through a channel can be compared with the known solution.
pub fn validate_laminar_plane_channel_benchmark_options(
    options: &LaminarPlaneChannelBenchmarkOptions,
) -> (out: Result<(), MeshError>)
    ensures
        checks::agrees(out, channel_benchmark_checked(*options)),
{
    check_channel_number("pressure drop", &options.pressure_drop)?;
    check_channel_number("dynamic viscosity", &options.dynamic_viscosity)?;
    check_channel_number("length", &options.length)?;
    check_channel_number("gap", &options.gap)?;
    check_channel_number("depth", &options.depth)?;
    checks::check(
        !text::is_blank(options.inlet_patch.as_str()) && !text::is_blank(
            options.outlet_patch.as_str(),
        ),
        "laminar plane-channel benchmark inlet and outlet patch names must not be empty",
    )
}

/// The diffusion equation of the velocity along a pipe: the pressure drives
/// it, and the fluid is at rest at the walls. `source` is the pressure drop for
/// each unit of length.
pub open spec fn pipe_diffusion(options: PoiseuilleOptions, source: RealView) -> Result<
    DiffusionView,
    Failure,
> {
    match poiseuille_checked(options) {
        Err(failure) => Err(failure),
        Ok(_) => Ok(
            DiffusionView {
                diffusivity: options.dynamic_viscosity@,
                source,
                default_boundary: ScalarBoundaryCondition::ZeroGradient,
                conditions: Seq::new(
                    options.wall_patches@.len(),
                    |i: int|
                        (
                            options.wall_patches@[i]@,
                            ScalarBoundaryCondition::FixedValue(reals::zero()),
                        ),
                ),
            },
        ),
    }
}

/// The diffusion equation of the velocity along a pipe; `source` is the
/// pressure drop for each unit of length.
pub fn poiseuille_diffusion_options(options: &PoiseuilleOptions, source: Real) -> (out: Result<
    ScalarDiffusionOptions<Real>,
    MeshError,
>)
    ensures
        match out {
            Ok(found) => dictionary::gives(
                pipe_diffusion(*options, source@),
                diffusion::options_view(found),
            ),
            Err(error) => dictionary::fails(pipe_diffusion(*options, source@), error),
        },
{
    validate_poiseuille_options(options)?;
    let walls = &options.wall_patches;
    let mut conditions: Vec<ScalarPatchBoundaryCondition<Real>> = Vec::new();
    let mut at: usize = 0;
    while at < walls.len()
        invariant
            at <= walls@.len(),
            conditions@.len() == at,
            forall|i: int|
                0 <= i < at ==> #[trigger] diffusion::condition_views(conditions@)[i] == (
                    walls@[i]@,
                    ScalarBoundaryCondition::FixedValue(reals::zero()),
                ),
        decreases walls@.len() - at,
    {
        let ghost before = diffusion::condition_views(conditions@);
        conditions.push(
            ScalarPatchBoundaryCondition {
                patch: walls[at].clone(),
                condition: ScalarBoundaryCondition::FixedValue(Real::zero()),
            },
        );
        assert(diffusion::condition_views(conditions@) =~= before.push(
            (walls@[at as int]@, ScalarBoundaryCondition::FixedValue(reals::zero())),
        ));
        at += 1;
    }
    assert(diffusion::condition_views(conditions@) =~= Seq::new(
        options.wall_patches@.len(),
        |i: int|
            (options.wall_patches@[i]@, ScalarBoundaryCondition::FixedValue(reals::zero())),
    ));
    Ok(
        ScalarDiffusionOptions {
            diffusivity: options.dynamic_viscosity.copy(),
            source,
            default_boundary: ScalarBoundaryCondition::ZeroGradient,
            patch_boundary_conditions: conditions,
        },
    )
}

/// What is wrong with the velocity or volume of a cell.
#[derive(Clone, Copy, Debug, Eq, PartialEq, Structural)]
pub enum CellFault {
    Velocity(usize),
    Volume(usize),
}

/// The first cell from `at` on whose velocity is not finite, or whose volume
/// cannot be one.
pub open spec fn cell_fault(velocities: Seq<RealKind>, volumes: Seq<RealKind>, at: int) -> Option<
    CellFault,
>
    decreases velocities.len() - at,
{
    if at >= velocities.len() || at >= volumes.len() {
        None
    } else if velocities[at] == RealKind::NotFinite {
        Some(CellFault::Velocity(at as usize))
    } else if !runtime::is_volume(volumes[at]) {
        Some(CellFault::Volume(at as usize))
    } else {
        cell_fault(velocities, volumes, at + 1)
    }
}

/// The first cell whose velocity is not finite, or whose volume cannot be one.
pub fn first_cell_fault(velocities: &Vec<RealKind>, volumes: &Vec<RealKind>) -> (fault: Option<
    CellFault,
>)
    ensures
        fault == cell_fault(velocities@, volumes@, 0),
{
    let mut at: usize = 0;
    while at < velocities.len() && at < volumes.len()
        invariant
            at <= velocities@.len(),
            cell_fault(velocities@, volumes@, 0) == cell_fault(velocities@, volumes@, at as int),
        decreases velocities@.len() - at,
    {
        if velocities[at] == RealKind::NotFinite {
            return Some(CellFault::Velocity(at));
        }
        if volumes[at] == RealKind::NotFinite || volumes[at] == RealKind::Negative {
            return Some(CellFault::Volume(at));
        }
        at += 1;
    }
    None
}

/// Whether a solution has a velocity and a volume for each cell.
pub open spec fn solution_checked(cells: nat, solution: nat, volumes: nat) -> Result<(), Failure> {
    checks::both(
        checks::unless(
            solution == cells,
            checks::count_line("Poiseuille solution"@, solution, cells, "cells"@),
        ),
        checks::unless(
            volumes == cells,
            runtime::length_line("cell_volumes"@, volumes, "cells"@, cells),
        ),
    )
}

/// Whether a solution has a velocity and a volume for each cell.
pub fn check_solution(cells: usize, solution: usize, volumes: usize) -> (out: Result<
    (),
    MeshError,
>)
    ensures
        checks::agrees(out, solution_checked(cells as nat, solution as nat, volumes as nat)),
{
    checks::check_count("Poiseuille solution", solution, cells, "cells")?;
    if volumes != cells {
        return Err(runtime::length_error("cell_volumes", volumes, "cells", cells));
    }
    Ok(())
}

/// Whether fields and volumes have a value for each cell; `name` is the
/// benchmark.
pub open spec fn fields_checked(
    name: Seq<char>,
    cells: nat,
    velocity: nat,
    pressure: nat,
    volumes: nat,
) -> Result<(), Failure> {
    checks::both(
        checks::unless(
            velocity == cells && pressure == cells,
            name + " expected "@ + text::decimal(cells) + " cells, got U="@ + text::decimal(
                velocity,
            ) + " p="@ + text::decimal(pressure),
        ),
        checks::unless(
            volumes == cells,
            runtime::length_line("cell_volumes"@, volumes, "cells"@, cells),
        ),
    )
}

/// Whether fields and volumes have a value for each cell; `name` is the
/// benchmark.
pub fn check_fields(
    name: &str,
    cells: usize,
    velocity: usize,
    pressure: usize,
    volumes: usize,
) -> (out: Result<(), MeshError>)
    ensures
        checks::agrees(
            out,
            fields_checked(
                name@,
                cells as nat,
                velocity as nat,
                pressure as nat,
                volumes as nat,
            ),
        ),
{
    if velocity != cells || pressure != cells {
        let mut message = name.to_string();
        message.append(" expected ");
        message.append(text::number_text(cells).as_str());
        message.append(" cells, got U=");
        message.append(text::number_text(velocity).as_str());
        message.append(" p=");
        message.append(text::number_text(pressure).as_str());
        return Err(MeshError::InvalidInput(message));
    }
    if volumes != cells {
        return Err(runtime::length_error("cell_volumes", volumes, "cells", cells));
    }
    Ok(())
}

/// The first patch from `at` on with a name.
pub open spec fn range_named(patches: Seq<SolverRuntimePatchRange>, name: Seq<char>, at: int) -> Option<
    nat,
>
    decreases patches.len() - at,
{
    if at >= patches.len() {
        None
    } else if patches[at].name@ == name {
        Some(at as nat)
    } else {
        range_named(patches, name, at + 1)
    }
}

/// The first patch with a name.
pub fn find_range(patches: &Vec<SolverRuntimePatchRange>, name: &str) -> (found: Option<usize>)
    ensures
        match found {
            Some(at) => at < patches@.len() && range_named(patches@, name@, 0) == Some(at as nat),
            None => range_named(patches@, name@, 0) is None,
        },
{
    let mut at: usize = 0;
    while at < patches.len()
        invariant
            at <= patches@.len(),
            range_named(patches@, name@, 0) == range_named(patches@, name@, at as int),
        decreases patches@.len() - at,
    {
        if text::text_eq(patches[at].name.as_str(), name) {
            return Some(at);
        }
        at += 1;
    }
    None
}

/// The owners of the boundary faces from `face` up to `end`; each must be
/// below `values`.
pub open spec fn owners_from<P, S>(
    mesh: SolverRuntimeMeshData<P, S>,
    values: nat,
    name: Seq<char>,
    face: int,
    end: int,
) -> Result<Seq<usize>, Failure>
    decreases end - face,
{
    if face >= end {
        Ok(Seq::empty())
    } else if mesh.neighbour@[face] is Some {
        owners_from(mesh, values, name, face + 1, end)
    } else if mesh.owner@[face] >= values {
        Err(
            Failure::InvalidInput(
                "mesh patch '"@ + name + "' face "@ + text::decimal(face as nat)
                    + " references missing owner cell "@ + text::decimal(
                    mesh.owner@[face] as nat,
                ),
            ),
        )
    } else {
        match owners_from(mesh, values, name, face + 1, end) {
            Err(failure) => Err(failure),
            Ok(rest) => Ok(seq![mesh.owner@[face]] + rest),
        }
    }
}

/// The cells along a patch, for the mean of `values` values over them.
pub open spec fn patch_owners<P, S>(
    mesh: SolverRuntimeMeshData<P, S>,
    values: nat,
    name: Seq<char>,
) -> Result<Seq<usize>, Failure> {
    match range_named(mesh.patches@, name, 0) {
        None => Err(Failure::InvalidInput("mesh patch '"@ + name + "' was not found"@)),
        Some(at) => {
            let patch = mesh.patches@[at as int];
            let end = patch.start_face + patch.faces;
            if end > usize::MAX {
                Err(Failure::InvalidInput("mesh patch '"@ + name + "' face range overflows"@))
            } else if end > mesh.faces || end > mesh.owner@.len() || end > mesh.neighbour@.len() {
                Err(
                    Failure::InvalidInput(
                        "mesh patch '"@ + name + "' face range "@ + text::decimal(
                            patch.start_face as nat,
                        ) + ".."@ + text::decimal(end as nat) + " exceeds mesh faces "@
                            + text::decimal(mesh.faces as nat),
                    ),
                )
            } else {
                match owners_from(mesh, values, name, patch.start_face as int, end) {
                    Err(failure) => Err(failure),
                    Ok(owners) => if owners.len() == 0 {
                        Err(
                            Failure::InvalidInput(
                                "mesh patch '"@ + name + "' has no boundary owner cells"@,
                            ),
                        )
                    } else {
                        Ok(owners)
                    },
                }
            }
        },
    }
}

spec fn behind(earlier: Seq<usize>, rest: Result<Seq<usize>, Failure>) -> Result<
    Seq<usize>,
    Failure,
> {
    match rest {
        Ok(found) => Ok(earlier + found),
        Err(failure) => Err(failure),
    }
}

fn patch_message(name: &str, rest: &str) -> (error: MeshError)
    ensures
        error@ == Failure::InvalidInput("mesh patch '"@ + name@ + rest@),
{
    let mut message = "mesh patch '".to_string();
    message.append(name);
    message.append(rest);
    MeshError::InvalidInput(message)
}

/// The cells along a patch, for the mean of `values` values over them; there
/// is at least one.
pub fn patch_owner_cells<P, S>(
    mesh: &SolverRuntimeMeshData<P, S>,
    values: usize,
    name: &str,
) -> (out: Result<Vec<usize>, MeshError>)
    ensures
        match out {
            Ok(owners) => dictionary::gives(
                patch_owners(*mesh, values as nat, name@),
                owners@,
            ),
            Err(error) => dictionary::fails(patch_owners(*mesh, values as nat, name@), error),
        },
{
    let at: usize = match find_range(&mesh.patches, name) {
        None => {
            return Err(patch_message(name, "' was not found"));
        },
        Some(found) => found,
    };
    let patch = &mesh.patches[at];
    let end: usize = match patch.start_face.checked_add(patch.faces) {
        None => {
            return Err(patch_message(name, "' face range overflows"));
        },
        Some(found) => found,
    };
    if end > mesh.faces || end > mesh.owner.len() || end > mesh.neighbour.len() {
        let mut message = "mesh patch '".to_string();
        message.append(name);
        message.append("' face range ");
        message.append(text::number_text(patch.start_face).as_str());
        message.append("..");
        message.append(text::number_text(end).as_str());
        message.append(" exceeds mesh faces ");
        message.append(text::number_text(mesh.faces).as_str());
        return Err(MeshError::InvalidInput(message));
    }
    let start: usize = patch.start_face;
    let ghost wanted = owners_from(*mesh, values as nat, name@, start as int, end as int);
    let mut owners: Vec<usize> = Vec::new();
    let mut face: usize = start;
    proof {
        if let Ok(found) = wanted {
            assert(owners@ + found =~= found);
        }
    }
    while face < end
        invariant
            start <= face <= end,
            end <= mesh.owner@.len(),
            end <= mesh.neighbour@.len(),
            wanted == owners_from(*mesh, values as nat, name@, start as int, end as int),
            patch_owners(*mesh, values as nat, name@) == (match wanted {
                Err(failure) => Err(failure),
                Ok(found) => if found.len() == 0 {
                    Err(
                        Failure::InvalidInput(
                            "mesh patch '"@ + name@ + "' has no boundary owner cells"@,
                        ),
                    )
                } else {
                    Ok(found)
                },
            }),
            wanted == behind(
                owners@,
                owners_from(*mesh, values as nat, name@, face as int, end as int),
            ),
        decreases end - face,
    {
        if mesh.neighbour[face].is_none() {
            let owner: usize = mesh.owner[face];
            if owner >= values {
                let mut message = "mesh patch '".to_string();
                message.append(name);
                message.append("' face ");
                message.append(text::number_text(face).as_str());
                message.append(" references missing owner cell ");
                message.append(text::number_text(owner).as_str());
                return Err(MeshError::InvalidInput(message));
            }
            let ghost earlier = owners@;
            owners.push(owner);
            proof {
                if let Ok(rest) = owners_from(
                    *mesh,
                    values as nat,
                    name@,
                    face + 1,
                    end as int,
                ) {
                    assert(earlier + (seq![owner] + rest) =~= earlier.push(owner) + rest);
                }
            }
        }
        face += 1;
    }
    assert(owners@ + Seq::<usize>::empty() =~= owners@);
    if owners.len() == 0 {
        return Err(patch_message(name, "' has no boundary owner cells"));
    }
    Ok(owners)
}

/// The equation of a flow through a pipe: the viscosity diffuses the velocity, the
/// given source drives it, every named wall holds the fluid at rest with the number
/// zero, no other patch has a condition, and where none is given the flow is free.
pub proof fn walls_hold_the_fluid(options: PoiseuilleOptions, source: RealView)
    requires
        pipe_diffusion(options, source) is Ok,
    ensures
        ({
            let found = pipe_diffusion(options, source)->Ok_0;
            &&& found.diffusivity == options.dynamic_viscosity@
            &&& found.source == source
            &&& found.default_boundary is ZeroGradient
            &&& found.conditions.len() == options.wall_patches@.len()
            &&& found.conditions.len() > 0
            &&& forall|i: int|
                0 <= i < options.wall_patches@.len() ==> (#[trigger] found.conditions[i]).0
                    == options.wall_patches@[i]@ && (
                found.conditions[i].1 matches ScalarBoundaryCondition::FixedValue(value)
                    && value.kind == RealKind::Zero && value.display == "0"@)
        }),
{
    assert(text::texts(options.wall_patches@).len() == options.wall_patches@.len());
}

/// At every boundary face of a wall the velocity is fixed at zero, and every other
/// boundary face that is no constraint is free.
pub proof fn fluid_rests_at_the_walls<P, S>(
    mesh: SolverRuntimeMeshData<P, S>,
    options: PoiseuilleOptions,
    source: RealView,
    found: ScalarDiffusionOptions<Real>,
    at: int,
    face: int,
)
    requires
        pipe_diffusion(options, source) == Ok::<DiffusionView, Failure>(
            diffusion::options_view(found),
        ),
        diffusion::treatments_checked(mesh.patches@, found, 0) is Ok,
        0 <= face < mesh.faces,
        mesh.neighbour@[face] is None,
        diffusion::is_last_patch(mesh.patches@, at, face),
        mesh.patches@[at].patch_type@ != "empty"@,
        mesh.patches@[at].patch_type@ != "wedge"@,
        mesh.patches@[at].patch_type@ != "symmetryPlane"@,
    ensures
        match diffusion::treatments(mesh, found)[face] {
            diffusion::FaceBoundaryTreatment::FixedValue(value) => value@.kind == RealKind::Zero
                && text::texts(options.wall_patches@).contains(mesh.patches@[at].name@),
            diffusion::FaceBoundaryTreatment::ZeroGradient => !text::texts(
                options.wall_patches@,
            ).contains(mesh.patches@[at].name@),
            diffusion::FaceBoundaryTreatment::Constraint => false,
        },
{
    walls_hold_the_fluid(options, source);
    let walls = text::texts(options.wall_patches@);
    let given = found.patch_boundary_conditions@;
    let views = diffusion::condition_views(given);
    let name = mesh.patches@[at].name@;
    assert(views.len() == given.len());
    assert forall|i: int| 0 <= i < given.len() implies (#[trigger] given[i]).patch@ == walls[i] && (
    given[i].condition matches ScalarBoundaryCondition::FixedValue(value) && value@.kind
        == RealKind::Zero) by {
        assert(views[i] == (given[i].patch@, diffusion::condition_view(given[i].condition)));
    }
    if walls.contains(name) {
        let i = choose|i: int| 0 <= i < walls.len() && walls[i] == name;
        let last = lemma_last_condition(given, name, i);
        diffusion::faces_get_the_condition_of_their_patch(mesh, found, at, last, face);
        assert(given[last].patch@ == walls[last]);
    } else {
        assert forall|i: int| 0 <= i < given.len() implies (#[trigger] given[i]).patch@ != name by {
            assert(given[i].patch@ == walls[i]);
        }
        diffusion::faces_without_condition_get_the_default(mesh, found, at, face);
    }
}

proof fn lemma_last_condition(
    given: Seq<ScalarPatchBoundaryCondition<Real>>,
    name: Seq<char>,
    from: int,
) -> (last: int)
    requires
        0 <= from < given.len(),
        given[from].patch@ == name,
    ensures
        diffusion::is_last_condition(given, last, name),
    decreases given.len() - from,
{
    if exists|i: int| from < i < given.len() && (#[trigger] given[i]).patch@ == name {
        let i = choose|i: int| from < i < given.len() && (#[trigger] given[i]).patch@ == name;
        lemma_last_condition(given, name, i)
    } else {
        from
    }
}

/// Whether a number can be the size of something.
pub open spec fn is_size(value: RealView) -> bool {
    value.kind == RealKind::UpToOne || value.kind == RealKind::AboveOne
}

/// A pipe is taken exactly where its numbers are finite and above zero; a solve of
/// it where it has walls with names besides, a comparison where both ends have
/// names.
pub proof fn pipe_is_taken_iff_usable(
    options: PoiseuilleOptions,
    benchmark: LaminarPipeBenchmarkOptions,
)
    ensures
        poiseuille_checked(options) is Ok <==> is_size(options.pressure_drop@) && is_size(
            options.dynamic_viscosity@,
        ) && is_size(options.length@) && is_size(options.diameter@) && options.wall_patches@.len()
            > 0 && forall|i: int|
            0 <= i < options.wall_patches@.len() ==> text::trim(
                #[trigger] options.wall_patches@[i]@,
            ).len() > 0,
        pipe_benchmark_checked(benchmark) is Ok <==> is_size(benchmark.pressure_drop@) && is_size(
            benchmark.dynamic_viscosity@,
        ) && is_size(benchmark.length@) && is_size(benchmark.diameter@) && text::trim(
            benchmark.inlet_patch@,
        ).len() > 0 && text::trim(benchmark.outlet_patch@).len() > 0,
{
    let walls = text::texts(options.wall_patches@);
    lemma_walls_checked(walls, 0);
    assert(walls.len() == options.wall_patches@.len());
    assert(forall|i: int| 0 <= i < walls.len() ==> walls[i] == #[trigger] options.wall_patches@[i]@);
    if walls_checked(walls, 0) is Ok {
        assert forall|i: int| 0 <= i < options.wall_patches@.len() implies text::trim(
            #[trigger] options.wall_patches@[i]@,
        ).len() > 0 by {
            assert(text::trim(walls[i]).len() > 0);
        }
    } else {
        let i = choose|i: int| 0 <= i < walls.len() && text::trim(#[trigger] walls[i]).len() == 0;
        assert(text::trim(options.wall_patches@[i]@).len() == 0);
    }
}

proof fn lemma_walls_checked(walls: Seq<Seq<char>>, from: int)
    requires
        0 <= from <= walls.len(),
    ensures
        walls_checked(walls, from) is Ok <==> forall|i: int|
            from <= i < walls.len() ==> text::trim(#[trigger] walls[i]).len() > 0,
    decreases walls.len() - from,
{
    if from < walls.len() {
        lemma_walls_checked(walls, from + 1);
        let first = walls[from];
        if text::trim(first).len() == 0 {
            assert(!(text::trim(walls[from]).len() > 0));
        }
    }
}

/// A channel is taken exactly where its numbers are finite and above zero and both
/// ends have names.
pub proof fn channel_is_taken_iff_usable(options: LaminarPlaneChannelBenchmarkOptions)
    ensures
        channel_benchmark_checked(options) is Ok <==> is_size(options.pressure_drop@) && is_size(
            options.dynamic_viscosity@,
        ) && is_size(options.length@) && is_size(options.gap@) && is_size(options.depth@)
            && text::trim(options.inlet_patch@).len() > 0 && text::trim(options.outlet_patch@).len()
            > 0,
{
}

/// A letter names the same direction in either case.
pub proof fn axis_ignores_case(value: Seq<char>, other: Seq<char>)
    requires
        text::lowered(value) == text::lowered(other),
    ensures
        axis_named(value) == axis_named(other),
{
}

/// The cell that is at fault is the first one whose velocity is not finite or whose
/// volume is not finite or below zero; without one there is no fault.
pub proof fn first_fault_is_found(velocities: Seq<RealKind>, volumes: Seq<RealKind>, from: int)
    requires
        0 <= from,
        velocities.len() == volumes.len(),
        velocities.len() <= usize::MAX,
    ensures
        match cell_fault(velocities, volumes, from) {
            None => forall|i: int|
                from <= i < velocities.len() ==> #[trigger] velocities[i] != RealKind::NotFinite
                    && volumes[i] != RealKind::NotFinite && volumes[i] != RealKind::Negative,
            Some(fault) => {
                let at = match fault {
                    CellFault::Velocity(cell) => cell as int,
                    CellFault::Volume(cell) => cell as int,
                };
                &&& from <= at < velocities.len()
                &&& fault is Velocity <==> velocities[at] == RealKind::NotFinite
                &&& fault is Volume ==> volumes[at] == RealKind::NotFinite || volumes[at]
                    == RealKind::Negative
                &&& forall|i: int|
                    from <= i < at ==> #[trigger] velocities[i] != RealKind::NotFinite
                        && volumes[i] != RealKind::NotFinite && volumes[i] != RealKind::Negative
            },
        },
    decreases velocities.len() - from,
{
    if from < velocities.len() {
        first_fault_is_found(velocities, volumes, from + 1);
    }
}

/// The cells along a patch are the owners of its boundary faces: each such owner
/// is among them, there is one for each boundary face, and no other cell is.
pub proof fn cells_along_a_patch_own_its_faces<P, S>(
    mesh: SolverRuntimeMeshData<P, S>,
    values: nat,
    name: Seq<char>,
    at: int,
)
    requires
        patch_owners(mesh, values, name) is Ok,
        0 <= at < mesh.patches@.len(),
        mesh.patches@[at].name@ == name,
        forall|i: int| 0 <= i < at ==> (#[trigger] mesh.patches@[i]).name@ != name,
    ensures
        ({
            let owners = patch_owners(mesh, values, name)->Ok_0;
            let start = mesh.patches@[at].start_face as int;
            let end = start + mesh.patches@[at].faces;
            &&& owners.len() > 0
            &&& forall|face: int|
                start <= face < end && (#[trigger] mesh.neighbour@[face]) is None
                    ==> owners.contains(mesh.owner@[face])
            &&& forall|k: int|
                0 <= k < owners.len() ==> #[trigger] owners[k] < values && exists|face: int|
                    start <= face < end && mesh.neighbour@[face] is None
                        && #[trigger] mesh.owner@[face] == owners[k]
        }),
{
    lemma_range_named(mesh.patches@, name, 0, at);
    let patch = mesh.patches@[at];
    lemma_owners_from(
        mesh,
        values,
        name,
        patch.start_face as int,
        patch.start_face + patch.faces,
    );
}

pub(crate) proof fn lemma_range_named(
    patches: Seq<SolverRuntimePatchRange>,
    name: Seq<char>,
    from: int,
    at: int,
)
    requires
        0 <= from <= at < patches.len(),
        patches[at].name@ == name,
        forall|i: int| from <= i < at ==> (#[trigger] patches[i]).name@ != name,
    ensures
        range_named(patches, name, from) == Some(at as nat),
    decreases at - from,
{
    if from < at {
        lemma_range_named(patches, name, from + 1, at);
    }
}

proof fn lemma_owners_from<P, S>(
    mesh: SolverRuntimeMeshData<P, S>,
    values: nat,
    name: Seq<char>,
    face: int,
    end: int,
)
    requires
        owners_from(mesh, values, name, face, end) is Ok,
    ensures
        ({
            let owners = owners_from(mesh, values, name, face, end)->Ok_0;
            &&& forall|i: int|
                face <= i < end && (#[trigger] mesh.neighbour@[i]) is None ==> owners.contains(
                    mesh.owner@[i],
                )
            &&& forall|k: int|
                0 <= k < owners.len() ==> #[trigger] owners[k] < values && exists|i: int|
                    face <= i < end && mesh.neighbour@[i] is None && #[trigger] mesh.owner@[i]
                        == owners[k]
        }),
    decreases end - face,
{
    if face < end {
        lemma_owners_from(mesh, values, name, face + 1, end);
        let owners = owners_from(mesh, values, name, face, end)->Ok_0;
        let rest = owners_from(mesh, values, name, face + 1, end)->Ok_0;
        let extra = owners.len() - rest.len();
        assert forall|i: int|
            face <= i < end && (#[trigger] mesh.neighbour@[i]) is None implies owners.contains(
            mesh.owner@[i],
        ) by {
            if i == face {
                assert(owners[0] == mesh.owner@[face]);
            } else {
                let k = choose|k: int| 0 <= k < rest.len() && rest[k] == mesh.owner@[i];
                assert(owners[k + extra] == mesh.owner@[i]);
            }
        }
        assert forall|k: int| 0 <= k < owners.len() implies #[trigger] owners[k] < values
            && exists|i: int|
            face <= i < end && mesh.neighbour@[i] is None && #[trigger] mesh.owner@[i]
                == owners[k] by {
            if k < extra {
                assert(mesh.owner@[face] == owners[k]);
            } else {
                assert(owners[k] == rest[k - extra]);
                let i = choose|i: int|
                    face + 1 <= i < end && mesh.neighbour@[i] is None && #[trigger] mesh.owner@[i]
                        == rest[k - extra];
                assert(mesh.owner@[i] == owners[k]);
            }
        }
    }
}

} // verus!
