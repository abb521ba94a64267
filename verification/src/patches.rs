//! Checks of the patches of a mesh.

use crate::diffusion;
use crate::error::MeshError;
use crate::poly_mesh::{BoundaryPatch, PolyMesh};
use crate::text;
use vstd::prelude::*;

verus! {

/// The patches of a mesh, and what is wrong with them.
#[derive(Debug)]
pub struct PatchValidationSummary {
    pub case_dir: String,
    pub patches: usize,
    pub empty_patches: usize,
    pub wedge_patches: usize,
    pub symmetry_patches: usize,
    pub warnings: Vec<String>,
}

/// How many of the first `n` patches have a type.
pub open spec fn of_type(patches: Seq<BoundaryPatch>, patch_type: Seq<char>, n: int) -> nat
    decreases n,
{
    if n <= 0 {
        0
    } else {
        of_type(patches, patch_type, n - 1) + if patches[n - 1].patch_type@ == patch_type {
            1nat
        } else {
            0
        }
    }
}

/// What is wrong with the faces of a patch in a mesh with `faces` faces, the
/// first `inner` of which lie between cells.
pub open spec fn range_warnings(patch: BoundaryPatch, faces: nat, inner: nat) -> Seq<Seq<char>> {
    if patch.start_face + patch.faces > usize::MAX {
        Seq::empty().push("patch '"@ + patch.name@ + "' face range overflows usize"@)
    } else {
        let beyond = if patch.start_face + patch.faces > faces {
            Seq::empty().push(
                "patch '"@ + patch.name@ + "' range startFace="@ + text::decimal(
                    patch.start_face as nat,
                ) + " nFaces="@ + text::decimal(patch.faces as nat) + " exceeds total faces="@
                    + text::decimal(faces),
            )
        } else {
            Seq::empty()
        };
        if patch.start_face < inner {
            beyond.push(
                "patch '"@ + patch.name@ + "' starts inside internal face range: startFace="@
                    + text::decimal(patch.start_face as nat) + " internalFaces="@
                    + text::decimal(inner),
            )
        } else {
            beyond
        }
    }
}

/// What is wrong with a patch that constrains the geometry.
pub open spec fn special_warnings(patch: BoundaryPatch) -> Seq<Seq<char>> {
    if diffusion::is_constraint(patch.patch_type@) && patch.faces == 0 {
        Seq::empty().push(
            "special patch '"@ + patch.name@ + "' type="@ + patch.patch_type@ + " has no faces"@,
        )
    } else {
        Seq::empty()
    }
}

/// What is wrong with the first `n` patches.
pub open spec fn warnings_before(patches: Seq<BoundaryPatch>, faces: nat, inner: nat, n: int) -> Seq<
    Seq<char>,
>
    decreases n,
{
    if n <= 0 {
        Seq::empty()
    } else {
        warnings_before(patches, faces, inner, n - 1) + range_warnings(
            patches[n - 1],
            faces,
            inner,
        ) + special_warnings(patches[n - 1])
    }
}

/// What is wrong with the patches: each by itself, and wedges that have no
/// partner.
pub open spec fn patch_warnings(patches: Seq<BoundaryPatch>, faces: nat, inner: nat) -> Seq<
    Seq<char>,
> {
    let all = warnings_before(patches, faces, inner, patches.len() as int);
    let wedges = of_type(patches, "wedge"@, patches.len() as int);
    if wedges % 2 == 1 {
        all.push(
            "wedge patches should normally appear in pairs; found "@ + text::decimal(wedges),
        )
    } else {
        all
    }
}

/// Whether `summary` is that of a mesh.
pub open spec fn is_summary<P>(
    summary: PatchValidationSummary,
    case_dir: Seq<char>,
    mesh: PolyMesh<P>,
) -> bool {
    let patches = mesh.patches@;
    let count = patches.len() as int;
    &&& summary.case_dir@ == case_dir
    &&& summary.patches == patches.len()
    &&& summary.empty_patches == of_type(patches, "empty"@, count)
    &&& summary.wedge_patches == of_type(patches, "wedge"@, count)
    &&& summary.symmetry_patches == of_type(patches, "symmetryPlane"@, count)
    &&& text::texts(summary.warnings@) == patch_warnings(
        patches,
        mesh.faces@.len(),
        mesh.neighbour@.len(),
    )
}

fn add_warning(warnings: &mut Vec<String>, warning: String)
    ensures
        text::texts(final(warnings)@) == text::texts(old(warnings)@).push(warning@),
{
    let ghost before = text::texts(warnings@);
    let ghost added = warning@;
    warnings.push(warning);
    assert(text::texts(warnings@) =~= before.push(added));
}

fn validate_patch_range(
    faces: usize,
    inner: usize,
    patch: &BoundaryPatch,
    warnings: &mut Vec<String>,
)
    ensures
        text::texts(final(warnings)@) == text::texts(old(warnings)@) + range_warnings(
            *patch,
            faces as nat,
            inner as nat,
        ),
{
    let ghost before = text::texts(warnings@);
    match patch.start_face.checked_add(patch.faces) {
        None => {
            let mut warning = "patch '".to_string();
            warning.append(patch.name.as_str());
            warning.append("' face range overflows usize");
            add_warning(warnings, warning);
        },
        Some(end) => {
            if end > faces {
                let mut warning = "patch '".to_string();
                warning.append(patch.name.as_str());
                warning.append("' range startFace=");
                warning.append(text::number_text(patch.start_face).as_str());
                warning.append(" nFaces=");
                warning.append(text::number_text(patch.faces).as_str());
                warning.append(" exceeds total faces=");
                warning.append(text::number_text(faces).as_str());
                add_warning(warnings, warning);
            }
            if patch.start_face < inner {
                let mut warning = "patch '".to_string();
                warning.append(patch.name.as_str());
                warning.append("' starts inside internal face range: startFace=");
                warning.append(text::number_text(patch.start_face).as_str());
                warning.append(" internalFaces=");
                warning.append(text::number_text(inner).as_str());
                add_warning(warnings, warning);
            }
        },
    }
    assert(text::texts(warnings@) =~= before + range_warnings(
        *patch,
        faces as nat,
        inner as nat,
    ));
}

fn validate_special_patch(patch: &BoundaryPatch, warnings: &mut Vec<String>)
    ensures
        text::texts(final(warnings)@) == text::texts(old(warnings)@) + special_warnings(*patch),
{
    let ghost before = text::texts(warnings@);
    if diffusion::is_constraint_patch(patch.patch_type.as_str()) && patch.faces == 0 {
        let mut warning = "special patch '".to_string();
        warning.append(patch.name.as_str());
        warning.append("' type=");
        warning.append(patch.patch_type.as_str());
        warning.append(" has no faces");
        add_warning(warnings, warning);
    }
    assert(text::texts(warnings@) =~= before + special_warnings(*patch));
}

/// Checks the patches of a mesh: their faces, those that constrain the
/// geometry, and the number of wedges.
pub fn validate_poly_mesh_patches<P>(case_dir: &str, mesh: &PolyMesh<P>) -> (summary:
    PatchValidationSummary)
    ensures
        is_summary(summary, case_dir@, *mesh),
{
    let patches = &mesh.patches;
    let faces: usize = mesh.faces.len();
    let inner: usize = mesh.neighbour.len();
    let mut empty: usize = 0;
    let mut wedges: usize = 0;
    let mut symmetry: usize = 0;
    let mut warnings: Vec<String> = Vec::new();
    let mut at: usize = 0;
    proof {
        reveal_strlit("empty");
        reveal_strlit("wedge");
        reveal_strlit("symmetryPlane");
        assert("empty"@[0] != "wedge"@[0]);
        assert("symmetryPlane"@.len() == 13 && "empty"@.len() == 5 && "wedge"@.len() == 5);
        assert(text::texts(warnings@) =~= Seq::empty());
    }
    while at < patches.len()
        invariant
            at <= patches@.len(),
            *patches == mesh.patches,
            empty <= at,
            wedges <= at,
            symmetry <= at,
            "empty"@ != "wedge"@,
            "empty"@ != "symmetryPlane"@,
            "wedge"@ != "symmetryPlane"@,
            empty == of_type(patches@, "empty"@, at as int),
            wedges == of_type(patches@, "wedge"@, at as int),
            symmetry == of_type(patches@, "symmetryPlane"@, at as int),
            text::texts(warnings@) == warnings_before(
                patches@,
                faces as nat,
                inner as nat,
                at as int,
            ),
        decreases patches@.len() - at,
    {
        let patch = &patches[at];
        if text::text_eq(patch.patch_type.as_str(), "empty") {
            empty += 1;
        } else if text::text_eq(patch.patch_type.as_str(), "wedge") {
            wedges += 1;
        } else if text::text_eq(patch.patch_type.as_str(), "symmetryPlane") {
            symmetry += 1;
        }
        validate_patch_range(faces, inner, patch, &mut warnings);
        validate_special_patch(patch, &mut warnings);
        at += 1;
    }
    if wedges % 2 == 1 {
        let mut warning = "wedge patches should normally appear in pairs; found ".to_string();
        warning.append(text::number_text(wedges).as_str());
        add_warning(&mut warnings, warning);
    }
    PatchValidationSummary {
        case_dir: case_dir.to_string(),
        patches: patches.len(),
        empty_patches: empty,
        wedge_patches: wedges,
        symmetry_patches: symmetry,
        warnings,
    }
}

/// Checks the patches of the mesh of a case, where it could be read.
pub fn validate_case_patches<P>(case_dir: &str, mesh: Result<PolyMesh<P>, MeshError>) -> (out:
    Result<PatchValidationSummary, MeshError>)
    ensures
        match (out, mesh) {
            (Ok(summary), Ok(found)) => is_summary(summary, case_dir@, found),
            (Err(error), Err(reason)) => error == reason,
            _ => false,
        },
{
    match mesh {
        Ok(found) => Ok(validate_poly_mesh_patches(case_dir, &found)),
        Err(error) => Err(error),
    }
}

/// Whether nothing is wrong with a patch: its faces are boundary faces of the mesh,
/// and it has some where it constrains the geometry.
pub open spec fn is_right(patch: BoundaryPatch, faces: nat, inner: nat) -> bool {
    &&& inner <= patch.start_face
    &&& patch.start_face + patch.faces <= faces
    &&& patch.patch_type@ == "empty"@ || patch.patch_type@ == "wedge"@ || patch.patch_type@
        == "symmetryPlane"@ ==> patch.faces > 0
}

/// How many patches have a type, by their places.
pub open spec fn places_of_type(patches: Seq<BoundaryPatch>, patch_type: Seq<char>) -> Set<int> {
    Set::new(|i: int| 0 <= i < patches.len() && patches[i].patch_type@ == patch_type)
}

proof fn lemma_of_type(patches: Seq<BoundaryPatch>, patch_type: Seq<char>, n: int)
    requires
        0 <= n <= patches.len(),
    ensures
        ({
            let places = Set::new(|i: int| 0 <= i < n && patches[i].patch_type@ == patch_type);
            places.finite() && places.len() == of_type(patches, patch_type, n)
        }),
    decreases n,
{
    let places = Set::new(|i: int| 0 <= i < n && patches[i].patch_type@ == patch_type);
    if n == 0 {
        assert(places =~= Set::empty());
    } else {
        lemma_of_type(patches, patch_type, n - 1);
        let before = Set::new(|i: int| 0 <= i < n - 1 && patches[i].patch_type@ == patch_type);
        if patches[n - 1].patch_type@ == patch_type {
            assert(places =~= before.insert(n - 1));
            assert(!before.contains(n - 1));
        } else {
            assert(places =~= before);
        }
    }
}

/// Patches are counted by their types: as many of a type as there are places where
/// a patch of it stands.
pub proof fn patches_are_counted_by_type(patches: Seq<BoundaryPatch>, patch_type: Seq<char>)
    ensures
        places_of_type(patches, patch_type).finite(),
        of_type(patches, patch_type, patches.len() as int) == places_of_type(
            patches,
            patch_type,
        ).len(),
{
    lemma_of_type(patches, patch_type, patches.len() as int);
    let places = Set::new(
        |i: int| 0 <= i < patches.len() && patches[i].patch_type@ == patch_type,
    );
    assert(places =~= places_of_type(patches, patch_type));
}

/// Patches give no warning exactly where nothing is wrong with any of them and the
/// wedges come in pairs.
pub proof fn sound_patches_give_no_warning(
    patches: Seq<BoundaryPatch>,
    faces: nat,
    inner: nat,
)
    requires
        faces <= usize::MAX,
    ensures
        patch_warnings(patches, faces, inner).len() == 0 <==> (forall|i: int|
            0 <= i < patches.len() ==> is_right(#[trigger] patches[i], faces, inner))
            && places_of_type(patches, "wedge"@).len() % 2 == 0,
{
    patches_are_counted_by_type(patches, "wedge"@);
    lemma_no_warnings(patches, faces, inner, patches.len() as int);
}

proof fn lemma_no_warnings(patches: Seq<BoundaryPatch>, faces: nat, inner: nat, n: int)
    requires
        faces <= usize::MAX,
        0 <= n <= patches.len(),
    ensures
        warnings_before(patches, faces, inner, n).len() == 0 <==> forall|i: int|
            0 <= i < n ==> is_right(#[trigger] patches[i], faces, inner),
    decreases n,
{
    if n > 0 {
        lemma_no_warnings(patches, faces, inner, n - 1);
        let patch = patches[n - 1];
        assert(range_warnings(patch, faces, inner).len() + special_warnings(patch).len() == 0
            <==> is_right(patch, faces, inner));
        if warnings_before(patches, faces, inner, n).len() == 0 {
            assert forall|i: int| 0 <= i < n implies is_right(
                #[trigger] patches[i],
                faces,
                inner,
            ) by {}
        }
    }
}

} // verus!
