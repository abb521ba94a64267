//! Fluxes through faces: which cells and boundary values they meet, and the
//! shape of the momentum matrix.

use crate::diffusion::FaceBoundaryTreatment;
use crate::runtime;
use crate::runtime::SolverRuntimeMeshData;
use crate::stencil;
use crate::stencil::{FaceTerm, StencilEntry};
use vstd::prelude::*;

verus! {

/// Where the value at a face comes from.
#[derive(Clone, Copy, Debug)]
pub enum FaceValue<V> {
    /// The mean of two cells.
    Mean(usize, usize),
    /// A cell.
    Cell(usize),
    /// The boundary.
    Fixed(V),
}

/// A term of an entry of the momentum matrix: the diffusion coefficient of a
/// face or the mass flux through it, as it is or with its sign changed.
#[derive(Clone, Copy, Debug, Eq, PartialEq, Structural)]
pub struct MomentumTerm {
    pub face: usize,
    pub convective: bool,
    pub positive: bool,
}

/// The value at a face: between two cells their mean, on the boundary the
/// fixed value or that of the cell.
pub open spec fn linear<P, S, V>(
    mesh: SolverRuntimeMeshData<P, S>,
    treatments: Seq<FaceBoundaryTreatment<V>>,
    face: int,
) -> FaceValue<V> {
    match mesh.neighbour@[face] {
        Some(other) => FaceValue::Mean(mesh.owner@[face], other),
        None => match treatments[face] {
            FaceBoundaryTreatment::FixedValue(value) => FaceValue::Fixed(value),
            _ => FaceValue::Cell(mesh.owner@[face]),
        },
    }
}

/// The value that the flow carries through a face: that of the side where it
/// comes from. `outward` says whether it leaves the owner of the face.
pub open spec fn upwind<P, S, V>(
    mesh: SolverRuntimeMeshData<P, S>,
    treatments: Seq<FaceBoundaryTreatment<V>>,
    face: int,
    outward: bool,
) -> FaceValue<V> {
    match mesh.neighbour@[face] {
        Some(other) => if outward {
            FaceValue::Cell(mesh.owner@[face])
        } else {
            FaceValue::Cell(other)
        },
        None => match treatments[face] {
            FaceBoundaryTreatment::FixedValue(value) => if outward {
                FaceValue::Cell(mesh.owner@[face])
            } else {
                FaceValue::Fixed(value)
            },
            _ => FaceValue::Cell(mesh.owner@[face]),
        },
    }
}

/// The value at a face.
pub fn face_value<P, S, V: Copy>(
    mesh: &SolverRuntimeMeshData<P, S>,
    treatments: &Vec<FaceBoundaryTreatment<V>>,
    face: usize,
) -> (value: FaceValue<V>)
    requires
        face < mesh.owner@.len(),
        face < mesh.neighbour@.len(),
        face < treatments@.len(),
    ensures
        value == linear(*mesh, treatments@, face as int),
{
    let owner: usize = mesh.owner[face];
    if let Some(other) = mesh.neighbour[face] {
        return FaceValue::Mean(owner, other);
    }
    match treatments[face] {
        FaceBoundaryTreatment::FixedValue(value) => FaceValue::Fixed(value),
        _ => FaceValue::Cell(owner),
    }
}

/// The value that the flow carries through a face.
pub fn upwind_face_value<P, S, V: Copy>(
    mesh: &SolverRuntimeMeshData<P, S>,
    treatments: &Vec<FaceBoundaryTreatment<V>>,
    face: usize,
    outward: bool,
) -> (value: FaceValue<V>)
    requires
        face < mesh.owner@.len(),
        face < mesh.neighbour@.len(),
        face < treatments@.len(),
    ensures
        value == upwind(*mesh, treatments@, face as int, outward),
{
    let owner: usize = mesh.owner[face];
    if let Some(other) = mesh.neighbour[face] {
        return if outward {
            FaceValue::Cell(owner)
        } else {
            FaceValue::Cell(other)
        };
    }
    match treatments[face] {
        FaceBoundaryTreatment::FixedValue(value) => if outward {
            FaceValue::Cell(owner)
        } else {
            FaceValue::Fixed(value)
        },
        _ => FaceValue::Cell(owner),
    }
}

/// The term of a face, where `present`.
pub open spec fn term_if(present: bool, face: int, convective: bool, positive: bool) -> Seq<
    MomentumTerm,
> {
    if present {
        seq![MomentumTerm { face: face as usize, convective, positive }]
    } else {
        Seq::empty()
    }
}

/// What the diffusion through a face adds to the entry in row `row` and column
/// `column`.
pub open spec fn diffusive<P, S, V>(
    mesh: SolverRuntimeMeshData<P, S>,
    treatments: Seq<FaceBoundaryTreatment<V>>,
    face: int,
    row: int,
    column: int,
) -> Seq<MomentumTerm> {
    let owner = mesh.owner@[face] as int;
    match mesh.neighbour@[face] {
        Some(other) => term_if(row == owner && column == owner, face, false, true) + term_if(
            row == owner && column == other,
            face,
            false,
            false,
        ) + term_if(row == other && column == other, face, false, true) + term_if(
            row == other && column == owner,
            face,
            false,
            false,
        ),
        None => match treatments[face] {
            FaceBoundaryTreatment::FixedValue(_) => term_if(
                row == owner && column == owner,
                face,
                false,
                true,
            ),
            _ => Seq::empty(),
        },
    }
}

/// What the flow through a face adds to the entry in row `row` and column
/// `column`: it takes the value of the cell where it comes from out of the one
/// cell and into the other. What enters through a face with a fixed value is
/// known and adds nothing.
pub open spec fn convective<P, S, V>(
    mesh: SolverRuntimeMeshData<P, S>,
    treatments: Seq<FaceBoundaryTreatment<V>>,
    outward: bool,
    face: int,
    row: int,
    column: int,
) -> Seq<MomentumTerm> {
    let owner = mesh.owner@[face] as int;
    match mesh.neighbour@[face] {
        Some(other) => {
            let source = if outward {
                owner
            } else {
                other as int
            };
            term_if(row == owner && column == source, face, true, true) + term_if(
                row == other && column == source,
                face,
                true,
                false,
            )
        },
        None => match treatments[face] {
            FaceBoundaryTreatment::FixedValue(_) => term_if(
                outward && row == owner && column == owner,
                face,
                true,
                true,
            ),
            _ => term_if(row == owner && column == owner, face, true, true),
        },
    }
}

/// What the first `n` faces add to the entry in row `row` and column
/// `column`, in the order of the faces.
pub open spec fn entry_terms<P, S, V>(
    mesh: SolverRuntimeMeshData<P, S>,
    treatments: Seq<FaceBoundaryTreatment<V>>,
    outward: Seq<bool>,
    n: int,
    row: int,
    column: int,
) -> Seq<MomentumTerm>
    decreases n,
{
    if n <= 0 {
        Seq::empty()
    } else {
        entry_terms(mesh, treatments, outward, n - 1, row, column) + diffusive(
            mesh,
            treatments,
            n - 1,
            row,
            column,
        ) + convective(mesh, treatments, outward[n - 1], n - 1, row, column)
    }
}

/// What the flow through a face between two cells takes out of the one, it
/// brings into the other.
pub proof fn momentum_is_conserved<P, S, V>(
    mesh: SolverRuntimeMeshData<P, S>,
    treatments: Seq<FaceBoundaryTreatment<V>>,
    outward: bool,
    face: int,
    column: int,
)
    requires
        mesh.neighbour@[face] is Some,
        mesh.neighbour@[face] != Some(mesh.owner@[face]),
    ensures
        ({
            let leaving = convective(
                mesh,
                treatments,
                outward,
                face,
                mesh.owner@[face] as int,
                column,
            );
            let entering = convective(
                mesh,
                treatments,
                outward,
                face,
                mesh.neighbour@[face]->0 as int,
                column,
            );
            &&& leaving.len() == entering.len()
            &&& forall|i: int|
                0 <= i < leaving.len() ==> (#[trigger] leaving[i]).positive
                    && !entering[i].positive && leaving[i].face == entering[i].face
        }),
{
}

/// The flow couples a cell only with the cell where it comes from.
pub proof fn coupling_is_upwind<P, S, V>(
    mesh: SolverRuntimeMeshData<P, S>,
    treatments: Seq<FaceBoundaryTreatment<V>>,
    outward: bool,
    face: int,
    row: int,
    column: int,
)
    requires
        mesh.neighbour@[face] is Some,
        convective(mesh, treatments, outward, face, row, column).len() > 0,
    ensures
        upwind(mesh, treatments, face, outward) == FaceValue::<V>::Cell(column as usize),
{
}

/// Whether rows hold what the first `n` faces add to the entries.
pub open spec fn holds_faces<P, S, V>(
    rows: Seq<Vec<StencilEntry<MomentumTerm>>>,
    mesh: SolverRuntimeMeshData<P, S>,
    treatments: Seq<FaceBoundaryTreatment<V>>,
    outward: Seq<bool>,
    n: int,
) -> bool {
    forall|r: int, c: int|
        0 <= r < rows.len() ==> #[trigger] stencil::terms_at(rows, r, c) == entry_terms(
            mesh,
            treatments,
            outward,
            n,
            r,
            c,
        )
}

/// Whether rows hold, beyond those of `before`, the terms that `added` says.
spec fn extended(
    rows: Seq<Vec<StencilEntry<MomentumTerm>>>,
    before: Seq<Vec<StencilEntry<MomentumTerm>>>,
    added: spec_fn(int, int) -> Seq<MomentumTerm>,
) -> bool {
    &&& rows.len() == before.len()
    &&& forall|r: int, c: int|
        0 <= r < rows.len() ==> #[trigger] stencil::terms_at(rows, r, c) == stencil::terms_at(
            before,
            r,
            c,
        ) + added(r, c)
}

fn add_diffusion<P, S, V: Copy>(
    rows: &mut Vec<Vec<StencilEntry<MomentumTerm>>>,
    mesh: &SolverRuntimeMeshData<P, S>,
    treatments: &Vec<FaceBoundaryTreatment<V>>,
    face: usize,
)
    requires
        runtime::sound(*mesh),
        treatments@.len() == mesh.faces,
        face < mesh.faces,
        old(rows)@.len() == mesh.cells,
        stencil::tidy(old(rows)@, mesh.cells as nat),
    ensures
        stencil::tidy(final(rows)@, mesh.cells as nat),
        extended(
            final(rows)@,
            old(rows)@,
            |r: int, c: int| diffusive(*mesh, treatments@, face as int, r, c),
        ),
{
    let ghost before = rows@;
    let ghost cells = mesh.cells as nat;
    let owner: usize = mesh.owner[face];
    let plus = MomentumTerm { face, convective: false, positive: true };
    let minus = MomentumTerm { face, convective: false, positive: false };
    match mesh.neighbour[face] {
        Some(other) => {
            assert(mesh.neighbour@[face as int] == Some(other));
            stencil::couple(rows, owner, owner, plus, Ghost(cells));
            let ghost first = rows@;
            stencil::couple(rows, owner, other, minus, Ghost(cells));
            let ghost second = rows@;
            stencil::couple(rows, other, other, plus, Ghost(cells));
            let ghost third = rows@;
            stencil::couple(rows, other, owner, minus, Ghost(cells));
            proof {
                assert forall|r: int, c: int| 0 <= r < rows@.len() implies #[trigger] stencil::terms_at(
                    rows@,
                    r,
                    c,
                ) == stencil::terms_at(before, r, c) + diffusive(
                    *mesh,
                    treatments@,
                    face as int,
                    r,
                    c,
                ) by {
                    assert(stencil::terms_at(third, r, c) == stencil::terms_at(third, r, c));
                    assert(stencil::terms_at(second, r, c) == stencil::terms_at(second, r, c));
                    assert(stencil::terms_at(first, r, c) == stencil::terms_at(first, r, c));
                    assert(stencil::terms_at(rows@, r, c) =~= stencil::terms_at(before, r, c)
                        + diffusive(*mesh, treatments@, face as int, r, c));
                }
            }
        },
        None => {
            if let FaceBoundaryTreatment::FixedValue(_) = treatments[face] {
                stencil::couple(rows, owner, owner, plus, Ghost(cells));
            }
            proof {
                assert forall|r: int, c: int| 0 <= r < rows@.len() implies #[trigger] stencil::terms_at(
                    rows@,
                    r,
                    c,
                ) == stencil::terms_at(before, r, c) + diffusive(
                    *mesh,
                    treatments@,
                    face as int,
                    r,
                    c,
                ) by {
                    assert(stencil::terms_at(rows@, r, c) =~= stencil::terms_at(before, r, c)
                        + diffusive(*mesh, treatments@, face as int, r, c));
                }
            }
        },
    }
}

fn add_convection<P, S, V: Copy>(
    rows: &mut Vec<Vec<StencilEntry<MomentumTerm>>>,
    mesh: &SolverRuntimeMeshData<P, S>,
    treatments: &Vec<FaceBoundaryTreatment<V>>,
    outward: bool,
    face: usize,
)
    requires
        runtime::sound(*mesh),
        treatments@.len() == mesh.faces,
        face < mesh.faces,
        old(rows)@.len() == mesh.cells,
        stencil::tidy(old(rows)@, mesh.cells as nat),
    ensures
        stencil::tidy(final(rows)@, mesh.cells as nat),
        extended(
            final(rows)@,
            old(rows)@,
            |r: int, c: int| convective(*mesh, treatments@, outward, face as int, r, c),
        ),
{
    let ghost before = rows@;
    let ghost cells = mesh.cells as nat;
    let owner: usize = mesh.owner[face];
    let plus = MomentumTerm { face, convective: true, positive: true };
    let minus = MomentumTerm { face, convective: true, positive: false };
    match mesh.neighbour[face] {
        Some(other) => {
            assert(mesh.neighbour@[face as int] == Some(other));
            let source: usize = if outward {
                owner
            } else {
                other
            };
            stencil::couple(rows, owner, source, plus, Ghost(cells));
            let ghost first = rows@;
            stencil::couple(rows, other, source, minus, Ghost(cells));
            proof {
                assert forall|r: int, c: int| 0 <= r < rows@.len() implies #[trigger] stencil::terms_at(
                    rows@,
                    r,
                    c,
                ) == stencil::terms_at(before, r, c) + convective(
                    *mesh,
                    treatments@,
                    outward,
                    face as int,
                    r,
                    c,
                ) by {
                    assert(stencil::terms_at(first, r, c) == stencil::terms_at(first, r, c));
                    assert(stencil::terms_at(rows@, r, c) =~= stencil::terms_at(before, r, c)
                        + convective(*mesh, treatments@, outward, face as int, r, c));
                }
            }
        },
        None => {
            let leaves = match treatments[face] {
                FaceBoundaryTreatment::FixedValue(_) => outward,
                _ => true,
            };
            if leaves {
                stencil::couple(rows, owner, owner, plus, Ghost(cells));
            }
            proof {
                assert forall|r: int, c: int| 0 <= r < rows@.len() implies #[trigger] stencil::terms_at(
                    rows@,
                    r,
                    c,
                ) == stencil::terms_at(before, r, c) + convective(
                    *mesh,
                    treatments@,
                    outward,
                    face as int,
                    r,
                    c,
                ) by {
                    assert(stencil::terms_at(rows@, r, c) =~= stencil::terms_at(before, r, c)
                        + convective(*mesh, treatments@, outward, face as int, r, c));
                }
            }
        },
    }
}

/// The shape of the momentum matrix; `outward` says for each face whether the
/// flow leaves its owner there.
pub fn momentum_stencil<P, S, V: Copy>(
    mesh: &SolverRuntimeMeshData<P, S>,
    treatments: &Vec<FaceBoundaryTreatment<V>>,
    outward: &Vec<bool>,
) -> (rows: Vec<Vec<StencilEntry<MomentumTerm>>>)
    requires
        runtime::sound(*mesh),
        treatments@.len() == mesh.faces,
        outward@.len() == mesh.faces,
    ensures
        rows@.len() == mesh.cells,
        stencil::tidy(rows@, mesh.cells as nat),
        holds_faces(rows@, *mesh, treatments@, outward@, mesh.faces as int),
{
    let mut rows: Vec<Vec<StencilEntry<MomentumTerm>>> = stencil::empty_rows(mesh.cells);
    let mut face: usize = 0;
    while face < mesh.faces
        invariant
            face <= mesh.faces,
            runtime::sound(*mesh),
            treatments@.len() == mesh.faces,
            outward@.len() == mesh.faces,
            rows@.len() == mesh.cells,
            stencil::tidy(rows@, mesh.cells as nat),
            holds_faces(rows@, *mesh, treatments@, outward@, face as int),
        decreases mesh.faces - face,
    {
        let ghost before = rows@;
        add_diffusion(&mut rows, mesh, treatments, face);
        let ghost middle = rows@;
        add_convection(&mut rows, mesh, treatments, outward[face], face);
        proof {
            assert forall|r: int, c: int| 0 <= r < rows@.len() implies #[trigger] stencil::terms_at(
                rows@,
                r,
                c,
            ) == entry_terms(*mesh, treatments@, outward@, face + 1, r, c) by {
                assert(stencil::terms_at(before, r, c) == entry_terms(
                    *mesh,
                    treatments@,
                    outward@,
                    face as int,
                    r,
                    c,
                ));
                assert(stencil::terms_at(middle, r, c) == stencil::terms_at(before, r, c)
                    + diffusive(*mesh, treatments@, face as int, r, c));
            }
        }
        face += 1;
    }
    rows
}

/// The faces of a cell among the first `n`, in their order; the flux through a
/// face leaves its owner and enters its neighbour.
pub open spec fn cell_terms<P, S>(mesh: SolverRuntimeMeshData<P, S>, n: int, cell: int) -> Seq<
    FaceTerm,
>
    decreases n,
{
    if n <= 0 {
        Seq::empty()
    } else {
        cell_terms(mesh, n - 1, cell) + stencil::term_if(
            mesh.owner@[n - 1] == cell,
            n - 1,
            true,
        ) + stencil::term_if(
            mesh.neighbour@[n - 1] is Some && mesh.neighbour@[n - 1]->0 == cell,
            n - 1,
            false,
        )
    }
}

/// Adds a term to those of a cell.
pub(crate) fn add_term<K>(cells: &mut Vec<Vec<K>>, cell: usize, term: K)
    requires
        cell < old(cells)@.len(),
    ensures
        final(cells)@.len() == old(cells)@.len(),
        forall|c: int|
            0 <= c < final(cells)@.len() ==> (#[trigger] final(cells)@[c])@ == if c == cell {
                old(cells)@[c]@.push(term)
            } else {
                old(cells)@[c]@
            },
{
    let ghost before = cells@;
    let empty: Vec<K> = Vec::new();
    cells.push(empty);
    let mut terms = cells.swap_remove(cell);
    terms.push(term);
    let ghost grown = terms;
    cells.set(cell, terms);
    assert(cells@ =~= before.update(cell as int, grown));
}

/// No terms for each of the first `n` cells.
pub(crate) fn no_terms<K>(n: usize) -> (cells: Vec<Vec<K>>)
    ensures
        cells@.len() == n,
        forall|c: int| 0 <= c < n ==> (#[trigger] cells@[c])@ == Seq::<K>::empty(),
{
    let mut cells: Vec<Vec<K>> = Vec::new();
    let mut cell: usize = 0;
    while cell < n
        invariant
            cell <= n,
            cells@.len() == cell,
            forall|c: int| 0 <= c < cell ==> (#[trigger] cells@[c])@ == Seq::<K>::empty(),
        decreases n - cell,
    {
        cells.push(Vec::new());
        assert(cells@[cell as int]@ =~= Seq::<K>::empty());
        cell += 1;
    }
    cells
}

/// For each cell its faces, in their order.
pub fn cell_faces<P, S>(mesh: &SolverRuntimeMeshData<P, S>) -> (cells: Vec<Vec<FaceTerm>>)
    requires
        runtime::sound(*mesh),
    ensures
        cells@.len() == mesh.cells,
        forall|c: int|
            0 <= c < mesh.cells ==> (#[trigger] cells@[c])@ == cell_terms(
                *mesh,
                mesh.faces as int,
                c,
            ),
{
    let mut cells: Vec<Vec<FaceTerm>> = no_terms(mesh.cells);
    let mut face: usize = 0;
    while face < mesh.faces
        invariant
            face <= mesh.faces,
            runtime::sound(*mesh),
            cells@.len() == mesh.cells,
            forall|c: int|
                0 <= c < mesh.cells ==> (#[trigger] cells@[c])@ == cell_terms(
                    *mesh,
                    face as int,
                    c,
                ),
        decreases mesh.faces - face,
    {
        let ghost before = cells@;
        let owner: usize = mesh.owner[face];
        add_term(&mut cells, owner, FaceTerm { face, positive: true });
        let ghost middle = cells@;
        if let Some(other) = mesh.neighbour[face] {
            assert(mesh.neighbour@[face as int] == Some(other));
            add_term(&mut cells, other, FaceTerm { face, positive: false });
        }
        assert forall|c: int| 0 <= c < mesh.cells implies (#[trigger] cells@[c])@ == cell_terms(
            *mesh,
            face + 1,
            c,
        ) by {
            assert(before[c]@ == cell_terms(*mesh, face as int, c));
            assert(middle[c]@ =~= before[c]@ + stencil::term_if(
                mesh.owner@[face as int] == c,
                face as int,
                true,
            ));
            assert(cells@[c]@ =~= cell_terms(*mesh, face + 1, c));
        }
        face += 1;
    }
    cells
}

/// The net flux out of a cell, for whole numbers `flux` as fluxes through the
/// faces.
pub open spec fn net_flux(terms: Seq<FaceTerm>, flux: spec_fn(int) -> int) -> int
    decreases terms.len(),
{
    if terms.len() == 0 {
        0
    } else {
        net_flux(terms.drop_last(), flux) + if terms.last().positive {
            flux(terms.last().face as int)
        } else {
            -flux(terms.last().face as int)
        }
    }
}

/// The net fluxes of the first `cells` cells, summed up.
pub open spec fn total_flux<P, S>(
    mesh: SolverRuntimeMeshData<P, S>,
    flux: spec_fn(int) -> int,
    n: int,
    cells: int,
) -> int
    decreases cells,
{
    if cells <= 0 {
        0
    } else {
        total_flux(mesh, flux, n, cells - 1) + net_flux(cell_terms(mesh, n, cells - 1), flux)
    }
}

/// The fluxes through the boundary faces among the first `n`, summed up.
pub open spec fn boundary_flux<P, S>(
    mesh: SolverRuntimeMeshData<P, S>,
    flux: spec_fn(int) -> int,
    n: int,
) -> int
    decreases n,
{
    if n <= 0 {
        0
    } else {
        boundary_flux(mesh, flux, n - 1) + if mesh.neighbour@[n - 1] is None {
            flux(n - 1)
        } else {
            0
        }
    }
}

proof fn lemma_net_flux_grows(terms: Seq<FaceTerm>, added: Seq<FaceTerm>, flux: spec_fn(int) -> int)
    ensures
        net_flux(terms + added, flux) == net_flux(terms, flux) + net_flux(added, flux),
    decreases added.len(),
{
    if added.len() == 0 {
        assert(terms + added =~= terms);
    } else {
        assert((terms + added).drop_last() =~= terms + added.drop_last());
        lemma_net_flux_grows(terms, added.drop_last(), flux);
    }
}

proof fn lemma_single(present: bool, face: int, positive: bool, flux: spec_fn(int) -> int)
    requires
        0 <= face <= usize::MAX,
    ensures
        net_flux(stencil::term_if(present, face, positive), flux) == if present {
            if positive {
                flux(face)
            } else {
                -flux(face)
            }
        } else {
            0
        },
{
    let terms = stencil::term_if(present, face, positive);
    if present {
        assert(terms.drop_last() =~= Seq::empty());
        assert(net_flux(terms.drop_last(), flux) == 0);
    }
}

proof fn lemma_total_grows<P, S>(
    mesh: SolverRuntimeMeshData<P, S>,
    flux: spec_fn(int) -> int,
    n: int,
    cells: int,
)
    requires
        runtime::sound(mesh),
        0 < n <= mesh.faces,
        0 <= cells,
    ensures
        total_flux(mesh, flux, n, cells) == total_flux(mesh, flux, n - 1, cells) + (if mesh.owner@[n
            - 1] < cells {
            flux(n - 1)
        } else {
            0
        }) - (if mesh.neighbour@[n - 1] is Some && mesh.neighbour@[n - 1]->0 < cells {
            flux(n - 1)
        } else {
            0
        }),
    decreases cells,
{
    if cells > 0 {
        lemma_total_grows(mesh, flux, n, cells - 1);
        let cell = cells - 1;
        let leaving = stencil::term_if(mesh.owner@[n - 1] == cell, n - 1, true);
        let entering = stencil::term_if(
            mesh.neighbour@[n - 1] is Some && mesh.neighbour@[n - 1]->0 == cell,
            n - 1,
            false,
        );
        let before = cell_terms(mesh, n - 1, cell);
        lemma_net_flux_grows(before, leaving, flux);
        lemma_net_flux_grows(before + leaving, entering, flux);
        lemma_single(mesh.owner@[n - 1] == cell, n - 1, true, flux);
        lemma_single(
            mesh.neighbour@[n - 1] is Some && mesh.neighbour@[n - 1]->0 == cell,
            n - 1,
            false,
            flux,
        );
    }
}

proof fn lemma_total_empty<P, S>(
    mesh: SolverRuntimeMeshData<P, S>,
    flux: spec_fn(int) -> int,
    cells: int,
)
    ensures
        total_flux(mesh, flux, 0, cells) == 0,
    decreases cells,
{
    if cells > 0 {
        lemma_total_empty(mesh, flux, cells - 1);
    }
}

proof fn lemma_conserved<P, S>(mesh: SolverRuntimeMeshData<P, S>, flux: spec_fn(int) -> int, n: int)
    requires
        runtime::sound(mesh),
        0 <= n <= mesh.faces,
    ensures
        total_flux(mesh, flux, n, mesh.cells as int) == boundary_flux(mesh, flux, n),
    decreases n,
{
    if n == 0 {
        lemma_total_empty(mesh, flux, mesh.cells as int);
    } else {
        lemma_conserved(mesh, flux, n - 1);
        lemma_total_grows(mesh, flux, n, mesh.cells as int);
        assert(mesh.owner@[n - 1] < mesh.cells);
        if let Some(other) = mesh.neighbour@[n - 1] {
            assert(other < mesh.cells);
        }
    }
}

/// The net fluxes of all cells sum up to the flux through the boundary:
/// between cells nothing is lost.
pub proof fn flux_is_conserved<P, S>(mesh: SolverRuntimeMeshData<P, S>, flux: spec_fn(int) -> int)
    requires
        runtime::sound(mesh),
    ensures
        total_flux(mesh, flux, mesh.faces as int, mesh.cells as int) == boundary_flux(
            mesh,
            flux,
            mesh.faces as int,
        ),
{
    lemma_conserved(mesh, flux, mesh.faces as int);
}

/// The value at a face between two cells is the mean of both; on the boundary it is
/// the fixed value, and without one that of the cell.
pub proof fn face_value_is_central<P, S, V>(
    mesh: SolverRuntimeMeshData<P, S>,
    treatments: Seq<FaceBoundaryTreatment<V>>,
    face: int,
)
    ensures
        mesh.neighbour@[face] matches Some(other) ==> linear(mesh, treatments, face)
            == FaceValue::<V>::Mean(mesh.owner@[face], other),
        mesh.neighbour@[face] is None ==> match treatments[face] {
            FaceBoundaryTreatment::FixedValue(value) => linear(mesh, treatments, face)
                == FaceValue::Fixed(value),
            FaceBoundaryTreatment::ZeroGradient => linear(mesh, treatments, face)
                == FaceValue::<V>::Cell(mesh.owner@[face]),
            FaceBoundaryTreatment::Constraint => linear(mesh, treatments, face)
                == FaceValue::<V>::Cell(mesh.owner@[face]),
        },
{
}

/// The flow carries the value of the side where it comes from: out of the owner it
/// carries that of the owner, into it that of the neighbour or, on the boundary, the
/// fixed value where there is one.
pub proof fn flow_carries_its_source<P, S, V>(
    mesh: SolverRuntimeMeshData<P, S>,
    treatments: Seq<FaceBoundaryTreatment<V>>,
    face: int,
)
    ensures
        upwind(mesh, treatments, face, true) == FaceValue::<V>::Cell(mesh.owner@[face]),
        mesh.neighbour@[face] matches Some(other) ==> upwind(mesh, treatments, face, false)
            == FaceValue::<V>::Cell(other),
        mesh.neighbour@[face] is None ==> match treatments[face] {
            FaceBoundaryTreatment::FixedValue(value) => upwind(mesh, treatments, face, false)
                == FaceValue::Fixed(value),
            _ => upwind(mesh, treatments, face, false) == FaceValue::<V>::Cell(mesh.owner@[face]),
        },
{
}

/// The terms of the momentum matrix: where a diffusive and where a convective term
/// of a face stands, and with which sign, if no face has one cell on both sides.
/// Diffusion couples the two cells of a face evenly; the flow adds to the row of the
/// owner, and takes from the row of the neighbour, in the column of the cell where it
/// comes from.
pub proof fn momentum_entries_hold_their_faces<P, S, V>(
    mesh: SolverRuntimeMeshData<P, S>,
    treatments: Seq<FaceBoundaryTreatment<V>>,
    outward: Seq<bool>,
    n: int,
    row: int,
    column: int,
    f: usize,
)
    requires
        forall|i: int|
            0 <= i < mesh.faces ==> (#[trigger] mesh.neighbour@[i]) != Some(mesh.owner@[i]),
        0 <= n <= mesh.faces,
    ensures
        ({
            let terms = entry_terms(mesh, treatments, outward, n, row, column);
            let owner = mesh.owner@[f as int];
            let inner = mesh.neighbour@[f as int] is Some;
            let other = mesh.neighbour@[f as int]->0;
            let fixed = treatments[f as int] is FixedValue;
            let leaves = outward[f as int];
            &&& terms.contains(
                MomentumTerm { face: f, convective: false, positive: true },
            ) <==> f < n && row == column && (owner == row && (inner || fixed) || inner && other
                == row)
            &&& terms.contains(
                MomentumTerm { face: f, convective: false, positive: false },
            ) <==> f < n && row != column && inner && (owner == row && other == column || owner
                == column && other == row)
            &&& terms.contains(
                MomentumTerm { face: f, convective: true, positive: true },
            ) <==> f < n && row == owner && (if inner {
                column == (if leaves {
                    owner
                } else {
                    other
                })
            } else {
                column == owner && (leaves || !fixed)
            })
            &&& terms.contains(
                MomentumTerm { face: f, convective: true, positive: false },
            ) <==> f < n && inner && row == other && column == (if leaves {
                owner
            } else {
                other
            })
        }),
    decreases n,
{
    if n > 0 {
        momentum_entries_hold_their_faces(mesh, treatments, outward, n - 1, row, column, f);
        let before = entry_terms(mesh, treatments, outward, n - 1, row, column);
        let spread = diffusive(mesh, treatments, n - 1, row, column);
        let carried = convective(mesh, treatments, outward[n - 1], n - 1, row, column);
        let all = entry_terms(mesh, treatments, outward, n, row, column);
        assert(mesh.neighbour@[n - 1] != Some(mesh.owner@[n - 1]));
        assert(spread.len() <= 1);
        assert(carried.len() <= 1);
        assert(spread.len() == 1 ==> spread[0].face == n - 1 && !spread[0].convective);
        assert(carried.len() == 1 ==> carried[0].face == n - 1 && carried[0].convective);
        assert forall|term: MomentumTerm| #[trigger]
            all.contains(term) <==> before.contains(term) || (spread.len() == 1 && spread[0]
                == term) || (carried.len() == 1 && carried[0] == term) by {
            if before.contains(term) {
                let k = choose|k: int| 0 <= k < before.len() && before[k] == term;
                assert(all[k] == term);
            }
            if spread.len() == 1 && spread[0] == term {
                assert(all[before.len() as int] == term);
            }
            if carried.len() == 1 && carried[0] == term {
                assert(all[(before.len() + spread.len()) as int] == term);
            }
        }
    }
}

/// The terms of a momentum entry stand in the order of their faces, a face has at
/// most one diffusive and one convective term there, and no face beyond the first
/// `n` has one.
pub proof fn momentum_terms_do_not_repeat<P, S, V>(
    mesh: SolverRuntimeMeshData<P, S>,
    treatments: Seq<FaceBoundaryTreatment<V>>,
    outward: Seq<bool>,
    n: int,
    row: int,
    column: int,
)
    requires
        forall|i: int|
            0 <= i < mesh.faces ==> (#[trigger] mesh.neighbour@[i]) != Some(mesh.owner@[i]),
        0 <= n <= mesh.faces,
    ensures
        ({
            let terms = entry_terms(mesh, treatments, outward, n, row, column);
            &&& forall|k: int| 0 <= k < terms.len() ==> (#[trigger] terms[k]).face < n
            &&& forall|i: int, j: int|
                0 <= i < j < terms.len() ==> (#[trigger] terms[i]).face <= (
                #[trigger] terms[j]).face && (terms[i].face == terms[j].face
                    ==> terms[i].convective != terms[j].convective)
        }),
    decreases n,
{
    if n > 0 {
        momentum_terms_do_not_repeat(mesh, treatments, outward, n - 1, row, column);
        assert(mesh.neighbour@[n - 1] != Some(mesh.owner@[n - 1]));
        let before = entry_terms(mesh, treatments, outward, n - 1, row, column);
        let spread = diffusive(mesh, treatments, n - 1, row, column);
        let carried = convective(mesh, treatments, outward[n - 1], n - 1, row, column);
        let all = entry_terms(mesh, treatments, outward, n, row, column);
        assert(spread.len() <= 1 && carried.len() <= 1);
        assert(spread.len() == 1 ==> spread[0].face == n - 1 && !spread[0].convective);
        assert(carried.len() == 1 ==> carried[0].face == n - 1 && carried[0].convective);
        assert forall|k: int| 0 <= k < all.len() implies (#[trigger] all[k]).face < n by {
            if k < before.len() {
                assert(all[k] == before[k]);
            } else if k < before.len() + spread.len() {
                assert(all[k] == spread[0]);
            } else {
                assert(all[k] == carried[0]);
            }
        }
        assert forall|i: int, j: int| 0 <= i < j < all.len() implies (#[trigger] all[i]).face <= (
        #[trigger] all[j]).face && (all[i].face == all[j].face ==> all[i].convective
            != all[j].convective) by {
            if j < before.len() {
                assert(all[i] == before[i] && all[j] == before[j]);
            } else if i < before.len() {
                assert(all[i] == before[i]);
                if j < before.len() + spread.len() {
                    assert(all[j] == spread[0]);
                } else {
                    assert(all[j] == carried[0]);
                }
            } else {
                assert(all[i] == spread[0]);
                assert(all[j] == carried[0]);
            }
        }
    }
}

/// The net flux of a cell adds the flux of each of its faces that it owns and takes
/// that of each face that it is the neighbour of.
pub proof fn net_flux_takes_each_face<P, S>(
    mesh: SolverRuntimeMeshData<P, S>,
    n: int,
    cell: int,
    f: usize,
)
    requires
        0 <= n <= mesh.faces,
    ensures
        cell_terms(mesh, n, cell).contains(FaceTerm { face: f, positive: true }) <==> f < n
            && mesh.owner@[f as int] == cell,
        cell_terms(mesh, n, cell).contains(FaceTerm { face: f, positive: false }) <==> f
            < n && mesh.neighbour@[f as int] is Some && mesh.neighbour@[f as int]->0 == cell,
    decreases n,
{
    if n > 0 {
        net_flux_takes_each_face(mesh, n - 1, cell, f);
        let before = cell_terms(mesh, n - 1, cell);
        let all = cell_terms(mesh, n, cell);
        let leaving = stencil::term_if(mesh.owner@[n - 1] == cell, n - 1, true);
        let entering = stencil::term_if(
            mesh.neighbour@[n - 1] is Some && mesh.neighbour@[n - 1]->0 == cell,
            n - 1,
            false,
        );
        assert(all =~= before + leaving + entering);
        assert forall|term: FaceTerm| #[trigger]
            all.contains(term) <==> before.contains(term) || (leaving.len() == 1 && leaving[0]
                == term) || (entering.len() == 1 && entering[0] == term) by {
            if before.contains(term) {
                let k = choose|k: int| 0 <= k < before.len() && before[k] == term;
                assert(all[k] == term);
            }
            if leaving.len() == 1 && leaving[0] == term {
                assert(all[before.len() as int] == term);
            }
            if entering.len() == 1 && entering[0] == term {
                assert(all[(before.len() + leaving.len()) as int] == term);
            }
        }
    }
}

} // verus!
