//! The mesh arrays that the kernels work on.

use crate::dictionary;
use crate::error::{Failure, MeshError};
use crate::plan::SolverRuntimePatchRange;
use crate::reals::{Real, RealKind};
use crate::text;
use vstd::prelude::*;

verus! {

/// The mesh of a run, with points of type `P` and lengths of type `S`.
#[derive(Debug)]
pub struct SolverRuntimeMeshData<P, S> {
    pub points: usize,
    pub cells: usize,
    pub faces: usize,
    pub internal_faces: usize,
    pub boundary_faces: usize,
    pub owner: Vec<usize>,
    pub neighbour: Vec<Option<usize>>,
    pub patches: Vec<SolverRuntimePatchRange>,
    pub face_centres: Vec<P>,
    pub face_area_vectors: Vec<P>,
    pub cell_centres: Vec<P>,
    pub cell_volumes: Vec<S>,
    pub min_face_area: S,
    pub max_face_area: S,
    pub min_cell_volume: S,
    pub max_cell_volume: S,
    pub total_cell_volume: S,
    pub non_positive_cell_volumes: usize,
}

/// Whether the arrays of a mesh have the sizes that it states, and its faces
/// lie between its cells.
pub open spec fn sound<P, S>(mesh: SolverRuntimeMeshData<P, S>) -> bool {
    &&& mesh.owner@.len() == mesh.faces
    &&& mesh.neighbour@.len() == mesh.faces
    &&& mesh.face_centres@.len() == mesh.faces
    &&& mesh.face_area_vectors@.len() == mesh.faces
    &&& mesh.cell_centres@.len() == mesh.cells
    &&& mesh.cell_volumes@.len() == mesh.cells
    &&& forall|i: int| 0 <= i < mesh.faces ==> #[trigger] mesh.owner@[i] < mesh.cells
    &&& forall|i: int|
        0 <= i < mesh.faces ==> match #[trigger] mesh.neighbour@[i] {
            Some(cell) => cell < mesh.cells,
            None => true,
        }
}

/// Whether the faces of the patches are faces of the mesh.
pub open spec fn patches_fit(patches: Seq<SolverRuntimePatchRange>, faces: nat) -> bool {
    forall|i: int|
        0 <= i < patches.len() ==> #[trigger] patches[i].start_face + patches[i].faces <= faces
}

/// The message on an array of another length.
pub open spec fn length_line(what: Seq<char>, found: nat, unit: Seq<char>, expected: nat) -> Seq<char> {
    "runtime mesh "@ + what + " length "@ + text::decimal(found) + " does not match "@ + unit + " "@
        + text::decimal(expected)
}

/// The error on an array of another length.
pub fn length_error(what: &str, found: usize, unit: &str, expected: usize) -> (error: MeshError)
    ensures
        error@ == Failure::InvalidInput(
            length_line(what@, found as nat, unit@, expected as nat),
        ),
{
    let mut message = "runtime mesh ".to_string();
    message.append(what);
    message.append(" length ");
    message.append(text::number_text(found).as_str());
    message.append(" does not match ");
    message.append(unit);
    message.append(" ");
    message.append(text::number_text(expected).as_str());
    MeshError::InvalidInput(message)
}

/// The message on a face whose `what` is not a cell.
pub open spec fn range_line(face: nat, what: Seq<char>, cell: nat, cells: nat) -> Seq<char> {
    "runtime mesh face "@ + text::decimal(face) + " "@ + what + " "@ + text::decimal(cell)
        + " is out of range for "@ + text::decimal(cells) + " cells"@
}

/// The error on a face whose `what` is not a cell.
pub fn range_error(face: usize, what: &str, cell: usize, cells: usize) -> (error: MeshError)
    ensures
        error@ == Failure::InvalidInput(
            range_line(face as nat, what@, cell as nat, cells as nat),
        ),
{
    let mut message = "runtime mesh face ".to_string();
    message.append(text::number_text(face).as_str());
    message.append(" ");
    message.append(what);
    message.append(" ");
    message.append(text::number_text(cell).as_str());
    message.append(" is out of range for ");
    message.append(text::number_text(cells).as_str());
    message.append(" cells");
    MeshError::InvalidInput(message)
}

/// Whether the faces from `at` on lie between the cells of the mesh.
pub open spec fn faces_checked<P, S>(mesh: SolverRuntimeMeshData<P, S>, at: int) -> Result<
    (),
    Failure,
>
    decreases mesh.owner@.len() - at,
{
    if at >= mesh.owner@.len() {
        Ok(())
    } else if mesh.owner@[at] >= mesh.cells {
        Err(
            Failure::InvalidInput(
                range_line(at as nat, "owner"@, mesh.owner@[at] as nat, mesh.cells as nat),
            ),
        )
    } else {
        match mesh.neighbour@[at] {
            Some(cell) => if cell >= mesh.cells {
                Err(
                    Failure::InvalidInput(
                        range_line(at as nat, "neighbour"@, cell as nat, mesh.cells as nat),
                    ),
                )
            } else {
                faces_checked(mesh, at + 1)
            },
            None => faces_checked(mesh, at + 1),
        }
    }
}

/// Whether the sizes of the mesh arrays are the stated ones.
pub open spec fn sizes_checked<P, S>(mesh: SolverRuntimeMeshData<P, S>) -> Result<(), Failure> {
    if mesh.owner@.len() != mesh.faces {
        Err(
            Failure::InvalidInput(
                length_line("owner"@, mesh.owner@.len(), "faces"@, mesh.faces as nat),
            ),
        )
    } else if mesh.neighbour@.len() != mesh.faces {
        Err(
            Failure::InvalidInput(
                length_line("neighbour"@, mesh.neighbour@.len(), "faces"@, mesh.faces as nat),
            ),
        )
    } else if mesh.face_centres@.len() != mesh.faces {
        Err(
            Failure::InvalidInput(
                length_line("face_centres"@, mesh.face_centres@.len(), "faces"@, mesh.faces as nat),
            ),
        )
    } else if mesh.face_area_vectors@.len() != mesh.faces {
        Err(
            Failure::InvalidInput(
                length_line(
                    "face_area_vectors"@,
                    mesh.face_area_vectors@.len(),
                    "faces"@,
                    mesh.faces as nat,
                ),
            ),
        )
    } else if mesh.cell_centres@.len() != mesh.cells {
        Err(
            Failure::InvalidInput(
                length_line("cell_centres"@, mesh.cell_centres@.len(), "cells"@, mesh.cells as nat),
            ),
        )
    } else if mesh.cell_volumes@.len() != mesh.cells {
        Err(
            Failure::InvalidInput(
                length_line("cell_volumes"@, mesh.cell_volumes@.len(), "cells"@, mesh.cells as nat),
            ),
        )
    } else {
        Ok(())
    }
}

/// The message on a patch whose faces cannot be counted.
pub open spec fn overflow_line(patch: SolverRuntimePatchRange) -> Seq<char> {
    "patch '"@ + patch.name@ + "' face range overflows: startFace="@ + text::decimal(
        patch.start_face as nat,
    ) + " faces="@ + text::decimal(patch.faces as nat)
}

/// The message on a patch whose faces are not all faces of the mesh.
pub open spec fn excess_line(patch: SolverRuntimePatchRange, faces: nat) -> Seq<char> {
    "patch '"@ + patch.name@ + "' face range "@ + text::decimal(patch.start_face as nat) + ".."@
        + text::decimal((patch.start_face + patch.faces) as nat) + " exceeds mesh faces "@
        + text::decimal(faces)
}

/// Whether the faces of the patches from `at` on are faces of the mesh.
pub open spec fn patches_checked(
    patches: Seq<SolverRuntimePatchRange>,
    faces: nat,
    at: int,
) -> Result<(), Failure>
    decreases patches.len() - at,
{
    if at >= patches.len() {
        Ok(())
    } else if patches[at].start_face + patches[at].faces > usize::MAX {
        Err(Failure::InvalidInput(overflow_line(patches[at])))
    } else if patches[at].start_face + patches[at].faces > faces {
        Err(Failure::InvalidInput(excess_line(patches[at], faces)))
    } else {
        patches_checked(patches, faces, at + 1)
    }
}

proof fn lemma_faces_checked<P, S>(mesh: SolverRuntimeMeshData<P, S>, at: int)
    requires
        0 <= at,
    ensures
        faces_checked(mesh, at) is Ok <==> forall|i: int|
            at <= i < mesh.owner@.len() ==> #[trigger] mesh.owner@[i] < mesh.cells && match mesh.neighbour@[i] {
                Some(cell) => cell < mesh.cells,
                None => true,
            },
    decreases mesh.owner@.len() - at,
{
    if at < mesh.owner@.len() {
        lemma_faces_checked(mesh, at + 1);
        assert(faces_checked(mesh, at) is Ok ==> mesh.owner@[at] < mesh.cells);
    }
}

proof fn lemma_patches_checked(patches: Seq<SolverRuntimePatchRange>, faces: nat, at: int)
    requires
        0 <= at,
        faces <= usize::MAX,
    ensures
        patches_checked(patches, faces, at) is Ok <==> forall|i: int|
            at <= i < patches.len() ==> #[trigger] patches[i].start_face + patches[i].faces
                <= faces,
    decreases patches.len() - at,
{
    if at < patches.len() {
        lemma_patches_checked(patches, faces, at + 1);
        assert(patches[at].start_face + patches[at].faces > faces ==> patches_checked(
            patches,
            faces,
            at,
        ) is Err);
    }
}

/// A mesh passes the checks if and only if its arrays have the stated sizes, its
/// faces lie between its cells and its patches are made of its faces.
pub proof fn checked_mesh_is_sound<P, S>(mesh: SolverRuntimeMeshData<P, S>)
    ensures
        (sizes_checked(mesh) is Ok && faces_checked(mesh, 0) is Ok) <==> sound(mesh),
        patches_checked(mesh.patches@, mesh.faces as nat, 0) is Ok <==> patches_fit(
            mesh.patches@,
            mesh.faces as nat,
        ),
{
    lemma_faces_checked(mesh, 0);
    lemma_patches_checked(mesh.patches@, mesh.faces as nat, 0);
    if sizes_checked(mesh) is Ok && faces_checked(mesh, 0) is Ok {
        assert forall|i: int| 0 <= i < mesh.faces implies match #[trigger] mesh.neighbour@[i] {
            Some(cell) => cell < mesh.cells,
            None => true,
        } by {
            assert(mesh.owner@[i] < mesh.cells);
        }
    }
}

/// Whether the sizes of the mesh arrays are the stated ones.
pub fn check_sizes<P, S>(mesh: &SolverRuntimeMeshData<P, S>) -> (out: Result<(), MeshError>)
    ensures
        match out {
            Ok(done) => dictionary::gives(sizes_checked(*mesh), done),
            Err(error) => dictionary::fails(sizes_checked(*mesh), error),
        },
{
    if mesh.owner.len() != mesh.faces {
        return Err(length_error("owner", mesh.owner.len(), "faces", mesh.faces));
    }
    if mesh.neighbour.len() != mesh.faces {
        return Err(length_error("neighbour", mesh.neighbour.len(), "faces", mesh.faces));
    }
    if mesh.face_centres.len() != mesh.faces {
        return Err(length_error("face_centres", mesh.face_centres.len(), "faces", mesh.faces));
    }
    if mesh.face_area_vectors.len() != mesh.faces {
        return Err(
            length_error("face_area_vectors", mesh.face_area_vectors.len(), "faces", mesh.faces),
        );
    }
    if mesh.cell_centres.len() != mesh.cells {
        return Err(length_error("cell_centres", mesh.cell_centres.len(), "cells", mesh.cells));
    }
    if mesh.cell_volumes.len() != mesh.cells {
        return Err(length_error("cell_volumes", mesh.cell_volumes.len(), "cells", mesh.cells));
    }
    Ok(())
}

/// Whether the faces lie between the cells of the mesh.
pub fn check_faces<P, S>(mesh: &SolverRuntimeMeshData<P, S>) -> (out: Result<(), MeshError>)
    requires
        mesh.neighbour@.len() == mesh.owner@.len(),
    ensures
        match out {
            Ok(done) => dictionary::gives(faces_checked(*mesh, 0), done),
            Err(error) => dictionary::fails(faces_checked(*mesh, 0), error),
        },
        out is Ok ==> forall|i: int|
            0 <= i < mesh.owner@.len() ==> #[trigger] mesh.owner@[i] < mesh.cells,
        out is Ok ==> forall|i: int|
            0 <= i < mesh.owner@.len() ==> match #[trigger] mesh.neighbour@[i] {
                Some(cell) => cell < mesh.cells,
                None => true,
            },
{
    let mut at: usize = 0;
    while at < mesh.owner.len()
        invariant
            at <= mesh.owner@.len(),
            mesh.neighbour@.len() == mesh.owner@.len(),
            faces_checked(*mesh, 0) == faces_checked(*mesh, at as int),
            forall|i: int| 0 <= i < at ==> #[trigger] mesh.owner@[i] < mesh.cells,
            forall|i: int|
                0 <= i < at ==> match #[trigger] mesh.neighbour@[i] {
                    Some(cell) => cell < mesh.cells,
                    None => true,
                },
        decreases mesh.owner@.len() - at,
    {
        if mesh.owner[at] >= mesh.cells {
            return Err(range_error(at, "owner", mesh.owner[at], mesh.cells));
        }
        if let Some(cell) = mesh.neighbour[at] {
            if cell >= mesh.cells {
                return Err(range_error(at, "neighbour", cell, mesh.cells));
            }
        }
        at += 1;
    }
    Ok(())
}

/// Whether the faces of the patches are faces of the mesh.
pub fn check_patches(patches: &Vec<SolverRuntimePatchRange>, faces: usize) -> (out: Result<
    (),
    MeshError,
>)
    ensures
        match out {
            Ok(done) => dictionary::gives(patches_checked(patches@, faces as nat, 0), done),
            Err(error) => dictionary::fails(patches_checked(patches@, faces as nat, 0), error),
        },
        out is Ok ==> patches_fit(patches@, faces as nat),
{
    let mut at: usize = 0;
    while at < patches.len()
        invariant
            at <= patches@.len(),
            patches_checked(patches@, faces as nat, 0) == patches_checked(
                patches@,
                faces as nat,
                at as int,
            ),
            forall|i: int|
                0 <= i < at ==> #[trigger] patches@[i].start_face + patches@[i].faces <= faces,
        decreases patches@.len() - at,
    {
        let patch = &patches[at];
        match patch.start_face.checked_add(patch.faces) {
            None => {
                let mut message = "patch '".to_string();
                message.append(patch.name.as_str());
                message.append("' face range overflows: startFace=");
                message.append(text::number_text(patch.start_face).as_str());
                message.append(" faces=");
                message.append(text::number_text(patch.faces).as_str());
                return Err(MeshError::InvalidInput(message));
            },
            Some(end) => {
                if end > faces {
                    let mut message = "patch '".to_string();
                    message.append(patch.name.as_str());
                    message.append("' face range ");
                    message.append(text::number_text(patch.start_face).as_str());
                    message.append("..");
                    message.append(text::number_text(end).as_str());
                    message.append(" exceeds mesh faces ");
                    message.append(text::number_text(faces).as_str());
                    return Err(MeshError::InvalidInput(message));
                }
            },
        }
        at += 1;
    }
    Ok(())
}

/// Whether a volume can be one: finite and not below zero.
pub open spec fn is_volume(kind: RealKind) -> bool {
    kind != RealKind::NotFinite && kind != RealKind::Negative
}

/// The first cell from `at` on whose volume cannot be one.
pub open spec fn bad_volume(volumes: Seq<RealKind>, at: int) -> Option<nat>
    decreases volumes.len() - at,
{
    if at >= volumes.len() {
        None
    } else if !is_volume(volumes[at]) {
        Some(at as nat)
    } else {
        bad_volume(volumes, at + 1)
    }
}

/// The first cell whose volume cannot be one.
pub fn first_bad_volume(volumes: &Vec<RealKind>) -> (cell: Option<usize>)
    ensures
        match cell {
            Some(found) => bad_volume(volumes@, 0) == Some(found as nat) && found < volumes@.len(),
            None => bad_volume(volumes@, 0) is None,
        },
{
    let mut at: usize = 0;
    while at < volumes.len()
        invariant
            at <= volumes@.len(),
            bad_volume(volumes@, 0) == bad_volume(volumes@, at as int),
        decreases volumes@.len() - at,
    {
        if volumes[at] == RealKind::NotFinite || volumes[at] == RealKind::Negative {
            return Some(at);
        }
        at += 1;
    }
    None
}

/// The message on the volume of a cell that cannot be one.
pub open spec fn volume_line(cell: nat, volume: Seq<char>) -> Seq<char> {
    "runtime mesh cell "@ + text::decimal(cell)
        + " volume must be finite and non-negative, got "@ + volume
}

/// The error on the volume of a cell that cannot be one.
pub fn volume_error(cell: usize, volume: &Real) -> (error: MeshError)
    ensures
        error@ == Failure::InvalidInput(volume_line(cell as nat, volume.display@)),
{
    let mut message = "runtime mesh cell ".to_string();
    message.append(text::number_text(cell).as_str());
    message.append(" volume must be finite and non-negative, got ");
    message.append(volume.display.as_str());
    MeshError::InvalidInput(message)
}

/// The first cell whose volume is not finite or is below zero is found, and none where
/// all can be volumes.
pub proof fn first_bad_volume_is_found(volumes: Seq<RealKind>, from: int)
    requires
        0 <= from,
    ensures
        match bad_volume(volumes, from) {
            Some(at) => from <= at < volumes.len() && (volumes[at as int] == RealKind::NotFinite
                || volumes[at as int] == RealKind::Negative) && forall|i: int|
                from <= i < at ==> #[trigger] volumes[i] != RealKind::NotFinite && volumes[i]
                    != RealKind::Negative,
            None => forall|i: int|
                from <= i < volumes.len() ==> #[trigger] volumes[i] != RealKind::NotFinite
                    && volumes[i] != RealKind::Negative,
        },
    decreases volumes.len() - from,
{
    if from < volumes.len() {
        first_bad_volume_is_found(volumes, from + 1);
    }
}

} // verus!
