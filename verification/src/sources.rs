//! What the fixed values of the boundary add to the right-hand sides of the
//! equations.

use crate::diffusion::FaceBoundaryTreatment;
use crate::momentum;
use crate::momentum::MomentumTerm;
use crate::runtime;
use crate::runtime::SolverRuntimeMeshData;
use crate::stencil;
use vstd::prelude::*;

verus! {

/// Whether a face is a boundary face of a cell with a fixed value.
pub open spec fn is_fixed<P, S, V>(
    mesh: SolverRuntimeMeshData<P, S>,
    treatments: Seq<FaceBoundaryTreatment<V>>,
    face: int,
    cell: int,
) -> bool {
    mesh.owner@[face] == cell && mesh.neighbour@[face] is None && treatments[face] is FixedValue
}

/// The faces among the first `n` whose coefficient, times their fixed value,
/// enters the right-hand side of the diffusion equation of a cell.
pub open spec fn fixed_faces<P, S, V>(
    mesh: SolverRuntimeMeshData<P, S>,
    treatments: Seq<FaceBoundaryTreatment<V>>,
    n: int,
    cell: int,
) -> Seq<usize>
    decreases n,
{
    if n <= 0 {
        Seq::empty()
    } else if is_fixed(mesh, treatments, n - 1, cell) {
        fixed_faces(mesh, treatments, n - 1, cell).push((n - 1) as usize)
    } else {
        fixed_faces(mesh, treatments, n - 1, cell)
    }
}

/// The terms that enter the right-hand side of the momentum equation of a cell
/// through a face, each times the fixed value of its face: the diffusion, and
/// what flows in.
pub open spec fn fixed_terms<P, S, V>(
    mesh: SolverRuntimeMeshData<P, S>,
    treatments: Seq<FaceBoundaryTreatment<V>>,
    outward: bool,
    face: int,
    cell: int,
) -> Seq<MomentumTerm> {
    momentum::term_if(is_fixed(mesh, treatments, face, cell), face, false, true)
        + momentum::term_if(
        is_fixed(mesh, treatments, face, cell) && !outward,
        face,
        true,
        false,
    )
}

/// The terms of the first `n` faces, in their order.
pub open spec fn source_terms<P, S, V>(
    mesh: SolverRuntimeMeshData<P, S>,
    treatments: Seq<FaceBoundaryTreatment<V>>,
    outward: Seq<bool>,
    n: int,
    cell: int,
) -> Seq<MomentumTerm>
    decreases n,
{
    if n <= 0 {
        Seq::empty()
    } else {
        source_terms(mesh, treatments, outward, n - 1, cell) + fixed_terms(
            mesh,
            treatments,
            outward[n - 1],
            n - 1,
            cell,
        )
    }
}

/// A boundary face with a fixed value enters the right-hand side of the
/// diffusion equation of a cell exactly where it enters the diagonal, so that a
/// field that has the fixed values everywhere solves the equation.
pub proof fn fixed_faces_enter_diagonal<P, S, V>(
    mesh: SolverRuntimeMeshData<P, S>,
    treatments: Seq<FaceBoundaryTreatment<V>>,
    face: int,
    cell: int,
)
    requires
        mesh.neighbour@[face] is None,
    ensures
        stencil::face_terms(mesh, treatments, face, cell, cell) == stencil::term_if(
            is_fixed(mesh, treatments, face, cell),
            face,
            true,
        ),
{
}

/// The momentum that flows through a boundary face with a fixed value is carried
/// by the cell or by the boundary, never by both: either the flow enters the
/// diagonal or it enters the right-hand side.
pub proof fn fixed_flow_enters_once<P, S, V>(
    mesh: SolverRuntimeMeshData<P, S>,
    treatments: Seq<FaceBoundaryTreatment<V>>,
    outward: bool,
    face: int,
    cell: int,
)
    requires
        is_fixed(mesh, treatments, face, cell),
    ensures
        outward ==> {
            &&& momentum::convective(mesh, treatments, outward, face, cell, cell)
                == momentum::term_if(true, face, true, true)
            &&& fixed_terms(mesh, treatments, outward, face, cell) == momentum::term_if(
                true,
                face,
                false,
                true,
            )
        },
        !outward ==> {
            &&& momentum::convective(mesh, treatments, outward, face, cell, cell)
                == Seq::<MomentumTerm>::empty()
            &&& fixed_terms(mesh, treatments, outward, face, cell) == momentum::term_if(
                true,
                face,
                false,
                true,
            ) + momentum::term_if(true, face, true, false)
        },
{
    assert(fixed_terms(mesh, treatments, true, face, cell) =~= momentum::term_if(
        true,
        face,
        false,
        true,
    ));
}

/// For each cell the faces whose fixed values enter its diffusion equation.
pub fn diffusion_sources<P, S, V: Copy>(
    mesh: &SolverRuntimeMeshData<P, S>,
    treatments: &Vec<FaceBoundaryTreatment<V>>,
) -> (cells: Vec<Vec<usize>>)
    requires
        runtime::sound(*mesh),
        treatments@.len() == mesh.faces,
    ensures
        cells@.len() == mesh.cells,
        forall|c: int|
            0 <= c < mesh.cells ==> (#[trigger] cells@[c])@ == fixed_faces(
                *mesh,
                treatments@,
                mesh.faces as int,
                c,
            ),
{
    let mut cells: Vec<Vec<usize>> = momentum::no_terms(mesh.cells);
    let mut face: usize = 0;
    while face < mesh.faces
        invariant
            face <= mesh.faces,
            runtime::sound(*mesh),
            treatments@.len() == mesh.faces,
            cells@.len() == mesh.cells,
            forall|c: int|
                0 <= c < mesh.cells ==> (#[trigger] cells@[c])@ == fixed_faces(
                    *mesh,
                    treatments@,
                    face as int,
                    c,
                ),
        decreases mesh.faces - face,
    {
        let ghost before = cells@;
        if mesh.neighbour[face].is_none() {
            if let FaceBoundaryTreatment::FixedValue(_) = treatments[face] {
                momentum::add_term(&mut cells, mesh.owner[face], face);
            }
        }
        assert forall|c: int| 0 <= c < mesh.cells implies (#[trigger] cells@[c])@ == fixed_faces(
            *mesh,
            treatments@,
            face + 1,
            c,
        ) by {
            assert(before[c]@ == fixed_faces(*mesh, treatments@, face as int, c));
        }
        face += 1;
    }
    cells
}

/// For each cell the terms that enter the right-hand side of its momentum
/// equation.
pub fn momentum_sources<P, S, V: Copy>(
    mesh: &SolverRuntimeMeshData<P, S>,
    treatments: &Vec<FaceBoundaryTreatment<V>>,
    outward: &Vec<bool>,
) -> (cells: Vec<Vec<MomentumTerm>>)
    requires
        runtime::sound(*mesh),
        treatments@.len() == mesh.faces,
        outward@.len() == mesh.faces,
    ensures
        cells@.len() == mesh.cells,
        forall|c: int|
            0 <= c < mesh.cells ==> (#[trigger] cells@[c])@ == source_terms(
                *mesh,
                treatments@,
                outward@,
                mesh.faces as int,
                c,
            ),
{
    let mut cells: Vec<Vec<MomentumTerm>> = momentum::no_terms(mesh.cells);
    let mut face: usize = 0;
    while face < mesh.faces
        invariant
            face <= mesh.faces,
            runtime::sound(*mesh),
            treatments@.len() == mesh.faces,
            outward@.len() == mesh.faces,
            cells@.len() == mesh.cells,
            forall|c: int|
                0 <= c < mesh.cells ==> (#[trigger] cells@[c])@ == source_terms(
                    *mesh,
                    treatments@,
                    outward@,
                    face as int,
                    c,
                ),
        decreases mesh.faces - face,
    {
        let ghost before = cells@;
        if mesh.neighbour[face].is_none() {
            if let FaceBoundaryTreatment::FixedValue(_) = treatments[face] {
                let owner: usize = mesh.owner[face];
                momentum::add_term(
                    &mut cells,
                    owner,
                    MomentumTerm { face, convective: false, positive: true },
                );
                if !outward[face] {
                    momentum::add_term(
                        &mut cells,
                        owner,
                        MomentumTerm { face, convective: true, positive: false },
                    );
                }
            }
        }
        assert forall|c: int| 0 <= c < mesh.cells implies (#[trigger] cells@[c])@ == source_terms(
            *mesh,
            treatments@,
            outward@,
            face + 1,
            c,
        ) by {
            assert(before[c]@ == source_terms(*mesh, treatments@, outward@, face as int, c));
            assert(cells@[c]@ =~= before[c]@ + fixed_terms(
                *mesh,
                treatments@,
                outward@[face as int],
                face as int,
                c,
            ));
        }
        face += 1;
    }
    cells
}

/// The faces whose fixed values drive the diffusion of a cell are its boundary
/// faces with a fixed value: all of them, each once, in their order.
pub proof fn fixed_faces_are_those_of_the_cell<P, S, V>(
    mesh: SolverRuntimeMeshData<P, S>,
    treatments: Seq<FaceBoundaryTreatment<V>>,
    n: int,
    cell: int,
)
    requires
        0 <= n <= mesh.faces,
    ensures
        ({
            let found = fixed_faces(mesh, treatments, n, cell);
            &&& forall|i: int, j: int| 0 <= i < j < found.len() ==> found[i] < found[j]
            &&& forall|f: usize| #[trigger]
                found.contains(f) <==> f < n && mesh.owner@[f as int] == cell
                    && mesh.neighbour@[f as int] is None && treatments[f as int] is FixedValue
        }),
    decreases n,
{
    if n > 0 {
        fixed_faces_are_those_of_the_cell(mesh, treatments, n - 1, cell);
        let before = fixed_faces(mesh, treatments, n - 1, cell);
        let all = fixed_faces(mesh, treatments, n, cell);
        assert forall|f: usize| #[trigger]
            all.contains(f) <==> before.contains(f) || (all.len() > before.len() && f == n - 1) by {
            if before.contains(f) {
                let k = choose|k: int| 0 <= k < before.len() && before[k] == f;
                assert(all[k] == f);
            }
            if all.len() > before.len() && f == n - 1 {
                assert(all[before.len() as int] == f);
            }
        }
        assert forall|i: int, j: int| 0 <= i < j < all.len() implies all[i] < all[j] by {
            if j == before.len() {
                assert(before.contains(before[i]));
            }
        }
    }
}

/// The terms that the boundary adds to the momentum of a cell: for each of its
/// boundary faces with a fixed value the diffusion, and where the flow enters there,
/// what it carries in.
pub proof fn source_terms_are_those_of_the_cell<P, S, V>(
    mesh: SolverRuntimeMeshData<P, S>,
    treatments: Seq<FaceBoundaryTreatment<V>>,
    outward: Seq<bool>,
    n: int,
    cell: int,
    f: usize,
)
    requires
        0 <= n <= mesh.faces,
    ensures
        ({
            let found = source_terms(mesh, treatments, outward, n, cell);
            let fixed = f < n && mesh.owner@[f as int] == cell && mesh.neighbour@[f as int] is None
                && treatments[f as int] is FixedValue;
            &&& found.contains(
                MomentumTerm { face: f, convective: false, positive: true },
            ) <==> fixed
            &&& found.contains(
                MomentumTerm { face: f, convective: true, positive: false },
            ) <==> fixed && !outward[f as int]
            &&& !found.contains(MomentumTerm { face: f, convective: false, positive: false })
            &&& !found.contains(MomentumTerm { face: f, convective: true, positive: true })
        }),
    decreases n,
{
    if n > 0 {
        source_terms_are_those_of_the_cell(mesh, treatments, outward, n - 1, cell, f);
        let before = source_terms(mesh, treatments, outward, n - 1, cell);
        let added = fixed_terms(mesh, treatments, outward[n - 1], n - 1, cell);
        let all = source_terms(mesh, treatments, outward, n, cell);
        assert forall|term: MomentumTerm| #[trigger]
            all.contains(term) <==> before.contains(term) || added.contains(term) by {
            if before.contains(term) {
                let k = choose|k: int| 0 <= k < before.len() && before[k] == term;
                assert(all[k] == term);
            }
            if added.contains(term) {
                let k = choose|k: int| 0 <= k < added.len() && added[k] == term;
                assert(all[before.len() + k] == term);
            }
        }
        let fixed = is_fixed(mesh, treatments, n - 1, cell);
        if fixed {
            assert(added[0] == MomentumTerm {
                face: (n - 1) as usize,
                convective: false,
                positive: true,
            });
            if !outward[n - 1] {
                assert(added[1] == MomentumTerm {
                    face: (n - 1) as usize,
                    convective: true,
                    positive: false,
                });
            }
        }
    }
}

} // verus!
