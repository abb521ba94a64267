//! What the operators of the flow solver ask of their arguments.

use crate::checks;
use crate::error::{Failure, MeshError};
use crate::poiseuille;
use crate::reals::{Real, RealView};
use crate::runtime;
use crate::runtime::SolverRuntimeMeshData;
use crate::text;
use vstd::prelude::*;

verus! {

/// What is said of a value that belongs to a cell or face and must be positive.
pub open spec fn place_line(what: Seq<char>, place: nat, rest: Seq<char>, value: RealView) -> Seq<
    char,
> {
    what + text::decimal(place) + rest + value.display
}

/// What is said of a value of a cell that must be positive.
pub open spec fn cell_line(what: Seq<char>, cell: nat, value: RealView) -> Seq<char> {
    place_line(what + " for cell "@, cell, " must be positive and finite, got "@, value)
}

/// No value may be at fault; the first that is comes with its cell.
pub open spec fn faultless(what: Seq<char>, fault: Option<(nat, RealView)>) -> Result<
    (),
    Failure,
> {
    match fault {
        Some(found) => Err(Failure::InvalidInput(cell_line(what, found.0, found.1))),
        None => Ok(()),
    }
}

/// The view of a value at fault.
pub open spec fn fault_view(fault: Option<(usize, Real)>) -> Option<(nat, RealView)> {
    match fault {
        Some(found) => Some((found.0 as nat, found.1@)),
        None => None,
    }
}

/// A list that must have one value for each of `n` cells or faces.
pub open spec fn counted(what: Seq<char>, found: nat, n: nat, unit: Seq<char>) -> Result<
    (),
    Failure,
> {
    checks::unless(found == n, checks::count_line(what, found, n, unit))
}

/// A list that must have so many values.
pub open spec fn expected(what: Seq<char>, n: nat, unit: Seq<char>, found: nat) -> Result<
    (),
    Failure,
> {
    checks::unless(found == n, checks::expected_line(what, n, unit, found))
}

/// What a momentum equation is made of: a flux through each face, a source in
/// each cell, a treatment of each face.
pub open spec fn momentum_system(
    cells: nat,
    faces: nat,
    flux: nat,
    source: nat,
    boundary: nat,
) -> Result<(), Failure> {
    checks::both(
        counted("momentum flux"@, flux, faces, "faces"@),
        checks::both(
            counted("momentum component source"@, source, cells, "cells"@),
            counted("momentum component boundary"@, boundary, faces, "faces"@),
        ),
    )
}

/// What an equation with a diffusivity of its own in each cell is made of.
pub open spec fn variable_system(
    cells: nat,
    faces: nat,
    diffusivity: nat,
    fault: Option<(nat, RealView)>,
    source: nat,
    boundary: nat,
) -> Result<(), Failure> {
    checks::both(
        counted("variable scalar component diffusivity"@, diffusivity, cells, "cells"@),
        checks::both(
            faultless("variable scalar component diffusivity value"@, fault),
            checks::both(
                counted("variable scalar component source"@, source, cells, "cells"@),
                counted("variable scalar component boundary"@, boundary, faces, "faces"@),
            ),
        ),
    )
}

/// What the flux of a pressure correction is made of.
pub open spec fn correction_flux(
    cells: nat,
    faces: nat,
    correction: nat,
    reciprocals: nat,
    fault: Option<(nat, RealView)>,
    boundary: nat,
) -> Result<(), Failure> {
    checks::both(
        expected("pressure correction flux"@, cells, " cell values"@, correction),
        checks::both(
            counted("pressure correction rAU"@, reciprocals, cells, "cells"@),
            checks::both(
                faultless("pressure correction rAU value"@, fault),
                counted("pressure correction boundary"@, boundary, faces, "faces"@),
            ),
        ),
    )
}

/// What the relaxation of an equation is made of.
pub open spec fn relaxed(rhs: nat, previous: nat, relaxation: RealView) -> Result<(), Failure> {
    checks::both(
        checks::unless(
            previous == rhs,
            "equation relaxation expected old solution with "@ + text::decimal(rhs)
                + " entries, got "@ + text::decimal(previous),
        ),
        checks::fraction("equation relaxation factor must be in (0, 1], got "@, relaxation),
    )
}

/// Fluxes that are added or subtracted face by face.
pub open spec fn same_faces(left: nat, right: nat) -> Result<(), Failure> {
    checks::unless(
        left == right,
        "face flux arrays have different lengths: "@ + text::decimal(left) + " and "@
            + text::decimal(right),
    )
}

/// The geometry of a face between two places: its area and their distance must
/// be `wide` and `long` enough to divide by.
pub open spec fn face_size(
    face: nat,
    area: RealView,
    wide: bool,
    distance: RealView,
    long: bool,
) -> Result<(), Failure> {
    checks::both(
        checks::unless(
            wide,
            place_line("face "@, face, " has non-positive area magnitude "@, area),
        ),
        checks::unless(
            long,
            place_line("face "@, face, " has non-positive diffusion distance "@, distance),
        ),
    )
}

/// The mass flux through a face.
pub open spec fn mass_flux(face: nat, flux: RealView) -> Result<(), Failure> {
    checks::unless(
        flux.finite(),
        place_line("momentum face "@, face, " mass flux must be finite, got "@, flux),
    )
}

fn place_text(what: &str, place: usize, rest: &str, value: &Real) -> (line: String)
    ensures
        line@ == place_line(what@, place as nat, rest@, value@),
{
    let mut line = what.to_string();
    line.append(text::number_text(place).as_str());
    line.append(rest);
    line.append(value.display.as_str());
    line
}

/// The failure of a value of a cell that is not positive.
pub fn cell_error(what: &str, cell: usize, value: &Real) -> (error: MeshError)
    ensures
        error@ == Failure::InvalidInput(cell_line(what@, cell as nat, value@)),
{
    let mut name = what.to_string();
    name.append(" for cell ");
    MeshError::InvalidInput(
        place_text(name.as_str(), cell, " must be positive and finite, got ", value),
    )
}

fn check_fault(what: &str, fault: &Option<(usize, Real)>) -> (out: Result<(), MeshError>)
    ensures
        checks::agrees(out, faultless(what@, fault_view(*fault))),
{
    match fault {
        Some(found) => Err(cell_error(what, found.0, &found.1)),
        None => Ok(()),
    }
}

/// Checks what a momentum equation is made of.
pub fn check_momentum_system(
    cells: usize,
    faces: usize,
    flux: usize,
    source: usize,
    boundary: usize,
) -> (out: Result<(), MeshError>)
    ensures
        checks::agrees(
            out,
            momentum_system(
                cells as nat,
                faces as nat,
                flux as nat,
                source as nat,
                boundary as nat,
            ),
        ),
{
    checks::check_count("momentum flux", flux, faces, "faces")?;
    checks::check_count("momentum component source", source, cells, "cells")?;
    checks::check_count("momentum component boundary", boundary, faces, "faces")
}

/// Checks what an equation with a diffusivity of its own in each cell is made
/// of; `fault` is the first diffusivity that is not positive.
pub fn check_variable_system(
    cells: usize,
    faces: usize,
    diffusivity: usize,
    fault: &Option<(usize, Real)>,
    source: usize,
    boundary: usize,
) -> (out: Result<(), MeshError>)
    ensures
        checks::agrees(
            out,
            variable_system(
                cells as nat,
                faces as nat,
                diffusivity as nat,
                fault_view(*fault),
                source as nat,
                boundary as nat,
            ),
        ),
{
    checks::check_count("variable scalar component diffusivity", diffusivity, cells, "cells")?;
    check_fault("variable scalar component diffusivity value", fault)?;
    checks::check_count("variable scalar component source", source, cells, "cells")?;
    checks::check_count("variable scalar component boundary", boundary, faces, "faces")
}

/// Checks what the flux of a pressure correction is made of; `fault` is the
/// first reciprocal that is not positive.
pub fn check_correction_flux(
    cells: usize,
    faces: usize,
    correction: usize,
    reciprocals: usize,
    fault: &Option<(usize, Real)>,
    boundary: usize,
) -> (out: Result<(), MeshError>)
    ensures
        checks::agrees(
            out,
            correction_flux(
                cells as nat,
                faces as nat,
                correction as nat,
                reciprocals as nat,
                fault_view(*fault),
                boundary as nat,
            ),
        ),
{
    checks::check_expected("pressure correction flux", cells, " cell values", correction)?;
    checks::check_count("pressure correction rAU", reciprocals, cells, "cells")?;
    check_fault("pressure correction rAU value", fault)?;
    checks::check_count("pressure correction boundary", boundary, faces, "faces")
}

/// Checks what the relaxation of an equation is made of.
pub fn check_relaxation(rhs: usize, previous: usize, relaxation: &Real) -> (out: Result<
    (),
    MeshError,
>)
    ensures
        checks::agrees(out, relaxed(rhs as nat, previous as nat, relaxation@)),
{
    if previous != rhs {
        let mut message = "equation relaxation expected old solution with ".to_string();
        message.append(text::number_text(rhs).as_str());
        message.append(" entries, got ");
        message.append(text::number_text(previous).as_str());
        return Err(MeshError::InvalidInput(message));
    }
    checks::check_fraction("equation relaxation factor must be in (0, 1], got ", relaxation)
}

/// Checks fluxes that are added or subtracted face by face.
pub fn check_same_faces(left: usize, right: usize) -> (out: Result<(), MeshError>)
    ensures
        checks::agrees(out, same_faces(left as nat, right as nat)),
{
    if left == right {
        return Ok(());
    }
    let mut message = "face flux arrays have different lengths: ".to_string();
    message.append(text::number_text(left).as_str());
    message.append(" and ");
    message.append(text::number_text(right).as_str());
    Err(MeshError::InvalidInput(message))
}

/// Checks the geometry of a face.
pub fn check_face_size(face: usize, area: &Real, wide: bool, distance: &Real, long: bool) -> (out:
    Result<(), MeshError>)
    ensures
        checks::agrees(out, face_size(face as nat, area@, wide, distance@, long)),
{
    if !wide {
        return Err(
            MeshError::InvalidInput(
                place_text("face ", face, " has non-positive area magnitude ", area),
            ),
        );
    }
    if !long {
        return Err(
            MeshError::InvalidInput(
                place_text("face ", face, " has non-positive diffusion distance ", distance),
            ),
        );
    }
    Ok(())
}

/// Checks the mass flux through a face.
pub fn check_mass_flux(face: usize, flux: &Real) -> (out: Result<(), MeshError>)
    ensures
        checks::agrees(out, mass_flux(face as nat, flux@)),
{
    if flux.is_finite() {
        return Ok(());
    }
    Err(
        MeshError::InvalidInput(
            place_text("momentum face ", face, " mass flux must be finite, got ", flux),
        ),
    )
}

/// The boundary faces among the first `n` faces from `start` on, in their order.
pub open spec fn boundary_faces<P, S>(
    mesh: SolverRuntimeMeshData<P, S>,
    start: int,
    n: int,
) -> Seq<usize>
    decreases n,
{
    if n <= 0 {
        Seq::empty()
    } else if mesh.neighbour@[start + n - 1] is None {
        boundary_faces(mesh, start, n - 1).push((start + n - 1) as usize)
    } else {
        boundary_faces(mesh, start, n - 1)
    }
}

/// The boundary faces of the first patch with a name, over which its mean value
/// is taken; none where there is no such patch or where it has no boundary
/// faces.
pub open spec fn patch_faces<P, S>(mesh: SolverRuntimeMeshData<P, S>, name: Seq<char>) -> Option<
    Seq<usize>,
> {
    match poiseuille::range_named(mesh.patches@, name, 0) {
        None => None,
        Some(at) => {
            let range = mesh.patches@[at as int];
            let found = boundary_faces(mesh, range.start_face as int, range.faces as int);
            if found.len() == 0 {
                None
            } else {
                Some(found)
            }
        },
    }
}

/// The boundary faces over which the mean value of a patch is taken.
pub fn patch_boundary_faces<P, S>(mesh: &SolverRuntimeMeshData<P, S>, name: &str) -> (found: Option<
    Vec<usize>,
>)
    requires
        runtime::patches_fit(mesh.patches@, mesh.neighbour@.len()),
    ensures
        match found {
            Some(faces) => patch_faces(*mesh, name@) == Some(faces@),
            None => patch_faces(*mesh, name@) is None,
        },
{
    let at: usize = match poiseuille::find_range(&mesh.patches, name) {
        Some(at) => at,
        None => {
            return None;
        },
    };
    let start: usize = mesh.patches[at].start_face;
    let count: usize = mesh.patches[at].faces;
    let total: usize = mesh.neighbour.len();
    let mut found: Vec<usize> = Vec::new();
    let mut n: usize = 0;
    while n < count
        invariant
            n <= count,
            start + count <= mesh.neighbour@.len(),
            mesh.neighbour@.len() == total,
            found@ == boundary_faces(*mesh, start as int, n as int),
        decreases count - n,
    {
        if mesh.neighbour[start + n].is_none() {
            found.push(start + n);
        }
        n += 1;
    }
    if found.len() == 0 {
        None
    } else {
        Some(found)
    }
}

/// The parts of an equation are taken exactly where each has one value for each cell
/// or face, nothing is at fault, and a relaxation lies above zero and up to one.
pub proof fn parts_are_taken_iff_they_fit(
    cells: nat,
    faces: nat,
    flux: nat,
    source: nat,
    boundary: nat,
    fault: Option<(nat, RealView)>,
    relaxation: RealView,
)
    ensures
        momentum_system(cells, faces, flux, source, boundary) is Ok <==> flux == faces && source
            == cells && boundary == faces,
        variable_system(cells, faces, flux, fault, source, boundary) is Ok <==> flux == cells
            && fault is None && source == cells && boundary == faces,
        correction_flux(cells, faces, flux, source, fault, boundary) is Ok <==> flux == cells
            && source == cells && fault is None && boundary == faces,
        relaxed(source, flux, relaxation) is Ok <==> flux == source && relaxation.kind
            == crate::reals::RealKind::UpToOne,
        same_faces(flux, source) is Ok <==> flux == source,
        mass_flux(faces, relaxation) is Ok <==> relaxation.kind
            != crate::reals::RealKind::NotFinite,
{
}

proof fn lemma_boundary_faces<P, S>(mesh: SolverRuntimeMeshData<P, S>, start: int, n: int)
    requires
        0 <= start,
        start + n <= usize::MAX,
    ensures
        forall|f: usize| #[trigger]
            boundary_faces(mesh, start, n).contains(f) <==> start <= f < start + n
                && mesh.neighbour@[f as int] is None,
    decreases n,
{
    if n > 0 {
        lemma_boundary_faces(mesh, start, n - 1);
        let before = boundary_faces(mesh, start, n - 1);
        let all = boundary_faces(mesh, start, n);
        assert forall|f: usize| #[trigger]
            all.contains(f) <==> before.contains(f) || (all.len() > before.len() && f == start + n
                - 1) by {
            if before.contains(f) {
                let k = choose|k: int| 0 <= k < before.len() && before[k] == f;
                assert(all[k] == f);
            }
            if all.len() > before.len() && f == start + n - 1 {
                assert(all[before.len() as int] == f);
            }
        }
    }
}

/// The faces over which a patch is averaged are all boundary faces in the range of the
/// first patch with its name, and no others.
pub proof fn patch_mean_is_over_its_faces<P, S>(
    mesh: SolverRuntimeMeshData<P, S>,
    name: Seq<char>,
    at: int,
    f: usize,
)
    requires
        0 <= at < mesh.patches@.len(),
        mesh.patches@[at].name@ == name,
        forall|i: int| 0 <= i < at ==> (#[trigger] mesh.patches@[i]).name@ != name,
        mesh.patches@[at].start_face + mesh.patches@[at].faces <= usize::MAX,
    ensures
        ({
            let start = mesh.patches@[at].start_face;
            let inside = start <= f < start + mesh.patches@[at].faces && mesh.neighbour@[f as int]
                is None;
            match patch_faces(mesh, name) {
                Some(found) => found.contains(f) <==> inside,
                None => !inside,
            }
        }),
{
    poiseuille::lemma_range_named(mesh.patches@, name, 0, at);
    let range = mesh.patches@[at];
    lemma_boundary_faces(mesh, range.start_face as int, range.faces as int);
    let found = boundary_faces(mesh, range.start_face as int, range.faces as int);
    if found.len() == 0 {
        assert(!found.contains(f));
    }
}

} // verus!
