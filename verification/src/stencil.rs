//! The shape of the diffusion matrix: which faces enter which entries.

use crate::diffusion::FaceBoundaryTreatment;
use crate::runtime;
use crate::runtime::SolverRuntimeMeshData;
use vstd::prelude::*;

verus! {

/// The coefficient of a face, as it enters an entry: as it is, or with its
/// sign changed.
#[derive(Clone, Copy, Debug, Eq, PartialEq, Structural)]
pub struct FaceTerm {
    pub face: usize,
    pub positive: bool,
}

/// An entry of a row: the sum of its terms, which are of type `K`.
#[derive(Debug)]
pub struct StencilEntry<K> {
    pub column: usize,
    pub terms: Vec<K>,
}

/// How many faces enter the equation in which way.
#[derive(Clone, Copy, Debug, Eq, PartialEq, Structural)]
pub struct FaceCounts {
    pub internal_faces: usize,
    pub fixed_value_faces: usize,
    pub zero_gradient_faces: usize,
    pub constraint_faces: usize,
}

/// The shape of a matrix with one row for each cell.
#[derive(Debug)]
pub struct DiffusionStencil {
    pub rows: Vec<Vec<StencilEntry<FaceTerm>>>,
    pub counts: FaceCounts,
}

/// The term of a face, where `present`.
pub open spec fn term_if(present: bool, face: int, positive: bool) -> Seq<FaceTerm> {
    if present {
        seq![FaceTerm { face: face as usize, positive }]
    } else {
        Seq::empty()
    }
}

/// What a face adds to the entry in row `row` and column `column`. A face
/// between two cells couples them; a boundary face with a fixed value adds to
/// the diagonal of its cell.
pub open spec fn face_terms<P, S, V>(
    mesh: SolverRuntimeMeshData<P, S>,
    treatments: Seq<FaceBoundaryTreatment<V>>,
    face: int,
    row: int,
    column: int,
) -> Seq<FaceTerm> {
    let owner = mesh.owner@[face] as int;
    match mesh.neighbour@[face] {
        Some(other) => term_if(row == owner && column == owner, face, true) + term_if(
            row == owner && column == other,
            face,
            false,
        ) + term_if(row == other && column == other, face, true) + term_if(
            row == other && column == owner,
            face,
            false,
        ),
        None => match treatments[face] {
            FaceBoundaryTreatment::FixedValue(_) => term_if(
                row == owner && column == owner,
                face,
                true,
            ),
            _ => Seq::empty(),
        },
    }
}

/// What the first `n` faces add to the entry in row `row` and column
/// `column`, in the order of the faces.
pub open spec fn entry_terms<P, S, V>(
    mesh: SolverRuntimeMeshData<P, S>,
    treatments: Seq<FaceBoundaryTreatment<V>>,
    n: int,
    row: int,
    column: int,
) -> Seq<FaceTerm>
    decreases n,
{
    if n <= 0 {
        Seq::empty()
    } else {
        entry_terms(mesh, treatments, n - 1, row, column) + face_terms(
            mesh,
            treatments,
            n - 1,
            row,
            column,
        )
    }
}

/// Whether the columns of a row increase.
pub open spec fn increasing<K>(row: Seq<StencilEntry<K>>) -> bool {
    forall|i: int, j: int| 0 <= i < j < row.len() ==> row[i].column < row[j].column
}

/// Whether a row holds an entry in a column.
pub open spec fn has_column<K>(row: Seq<StencilEntry<K>>, column: int) -> bool {
    exists|i: int| 0 <= i < row.len() && #[trigger] row[i].column == column
}

/// The terms of the entry in a column; none where there is no entry.
pub open spec fn terms_in<K>(row: Seq<StencilEntry<K>>, column: int) -> Seq<K> {
    if has_column(row, column) {
        let i = choose|i: int| 0 <= i < row.len() && #[trigger] row[i].column == column;
        row[i].terms@
    } else {
        Seq::empty()
    }
}

/// Whether no entry of a row is without terms.
pub open spec fn filled<K>(row: Seq<StencilEntry<K>>) -> bool {
    forall|i: int| 0 <= i < row.len() ==> #[trigger] row[i].terms@.len() > 0
}

/// Whether the faces before `n` enter the equation in this many ways.
pub open spec fn counted<P, S, V>(
    mesh: SolverRuntimeMeshData<P, S>,
    treatments: Seq<FaceBoundaryTreatment<V>>,
    n: int,
) -> (nat, nat, nat, nat)
    decreases n,
{
    if n <= 0 {
        (0, 0, 0, 0)
    } else {
        let (internal, fixed, free, constraint) = counted(mesh, treatments, n - 1);
        match mesh.neighbour@[n - 1] {
            Some(_) => (internal + 1, fixed, free, constraint),
            None => match treatments[n - 1] {
                FaceBoundaryTreatment::FixedValue(_) => (internal, fixed + 1, free, constraint),
                FaceBoundaryTreatment::ZeroGradient => (internal, fixed, free + 1, constraint),
                FaceBoundaryTreatment::Constraint => (internal, fixed, free, constraint + 1),
            },
        }
    }
}

/// The matrix is symmetric: two cells enter each other's equations with the
/// same terms.
pub proof fn stencil_is_symmetric<P, S, V>(
    mesh: SolverRuntimeMeshData<P, S>,
    treatments: Seq<FaceBoundaryTreatment<V>>,
    n: int,
    row: int,
    column: int,
)
    ensures
        entry_terms(mesh, treatments, n, row, column) == entry_terms(
            mesh,
            treatments,
            n,
            column,
            row,
        ),
    decreases n,
{
    if n > 0 {
        stencil_is_symmetric(mesh, treatments, n - 1, row, column);
        assert(face_terms(mesh, treatments, n - 1, row, column) =~= face_terms(
            mesh,
            treatments,
            n - 1,
            column,
            row,
        ));
    }
}

/// Where no face has one cell on both sides, the terms on the diagonal are
/// the coefficients of faces, and the terms off it are those coefficients
/// with their sign changed.
pub proof fn diagonal_decides_sign<P, S, V>(
    mesh: SolverRuntimeMeshData<P, S>,
    treatments: Seq<FaceBoundaryTreatment<V>>,
    n: int,
    row: int,
    column: int,
)
    requires
        forall|i: int|
            0 <= i < mesh.faces ==> (#[trigger] mesh.neighbour@[i]) != Some(mesh.owner@[i]),
        n <= mesh.faces,
    ensures
        forall|k: int|
            0 <= k < entry_terms(mesh, treatments, n, row, column).len() ==> (
            #[trigger] entry_terms(mesh, treatments, n, row, column)[k]).positive == (row
                == column),
    decreases n,
{
    if n > 0 {
        diagonal_decides_sign(mesh, treatments, n - 1, row, column);
        let before = entry_terms(mesh, treatments, n - 1, row, column);
        let added = face_terms(mesh, treatments, n - 1, row, column);
        assert(mesh.neighbour@[n - 1] != Some(mesh.owner@[n - 1]));
        assert forall|k: int| 0 <= k < added.len() implies (#[trigger] added[k]).positive == (row
            == column) by {}
        let all = entry_terms(mesh, treatments, n, row, column);
        assert forall|k: int| 0 <= k < all.len() implies (#[trigger] all[k]).positive == (row
            == column) by {
            if k >= before.len() {
                assert(all[k] == added[k - before.len()]);
            } else {
                assert(all[k] == before[k]);
            }
        }
    }
}

/// How many terms of a sequence are positive, less those that are not.
pub open spec fn balance(terms: Seq<FaceTerm>) -> int
    decreases terms.len(),
{
    if terms.len() == 0 {
        0
    } else {
        balance(terms.drop_last()) + if terms.last().positive {
            1int
        } else {
            -1int
        }
    }
}

/// A face between two cells adds to the row of either cell one coefficient
/// and the same coefficient with its sign changed: a constant field meets no
/// diffusion inside the mesh.
pub proof fn internal_face_is_balanced<P, S, V>(
    mesh: SolverRuntimeMeshData<P, S>,
    treatments: Seq<FaceBoundaryTreatment<V>>,
    face: int,
    row: int,
)
    requires
        mesh.neighbour@[face] is Some,
        mesh.neighbour@[face] != Some(mesh.owner@[face]),
        row == mesh.owner@[face] || row == mesh.neighbour@[face]->0,
    ensures
        balance(face_terms(mesh, treatments, face, row, mesh.owner@[face] as int)) + balance(
            face_terms(mesh, treatments, face, row, mesh.neighbour@[face]->0 as int),
        ) == 0,
{
    let owner = mesh.owner@[face] as int;
    let other = mesh.neighbour@[face]->0 as int;
    let plus = seq![FaceTerm { face: face as usize, positive: true }];
    let minus = seq![FaceTerm { face: face as usize, positive: false }];
    let at_row = if row == owner {
        owner
    } else {
        other
    };
    let away = if row == owner {
        other
    } else {
        owner
    };
    assert(face_terms(mesh, treatments, face, row, at_row) =~= plus);
    assert(face_terms(mesh, treatments, face, row, away) =~= minus);
    assert(plus.drop_last() =~= Seq::empty());
    assert(minus.drop_last() =~= Seq::empty());
    assert(balance(plus.drop_last()) == 0 && balance(minus.drop_last()) == 0);
    assert(balance(plus) == 1 && balance(minus) == -1);
}

proof fn lemma_terms_at<K>(row: Seq<StencilEntry<K>>, i: int)
    requires
        increasing(row),
        0 <= i < row.len(),
    ensures
        terms_in(row, row[i].column as int) == row[i].terms@,
{
    let column = row[i].column as int;
    assert(has_column(row, column));
    let k = choose|k: int| 0 <= k < row.len() && #[trigger] row[k].column == column;
    if k != i {
        assert(row[k].column == row[i].column);
        if k < i {
            assert(row[k].column < row[i].column);
        } else {
            assert(row[i].column < row[k].column);
        }
    }
}

/// Rows that hold the same terms at the same columns but for one.
proof fn lemma_terms_after<K>(
    before: Seq<StencilEntry<K>>,
    after: Seq<StencilEntry<K>>,
    column: int,
    terms: Seq<K>,
)
    requires
        increasing(before),
        increasing(after),
        exists|i: int| 0 <= i < after.len() && #[trigger] after[i].column == column && after[i].terms@ == terms,
        forall|i: int|
            0 <= i < after.len() && after[i].column != column ==> exists|k: int|
                0 <= k < before.len() && #[trigger] before[k].column == after[i].column && before[k].terms@
                    == (#[trigger] after[i]).terms@,
        forall|k: int|
            0 <= k < before.len() && before[k].column != column ==> has_column(
                after,
                (#[trigger] before[k]).column as int,
            ),
    ensures
        forall|c: int|
            #[trigger] terms_in(after, c) == if c == column {
                terms
            } else {
                terms_in(before, c)
            },
{
    assert forall|c: int| #[trigger] terms_in(after, c) == if c == column {
        terms
    } else {
        terms_in(before, c)
    } by {
        if c == column {
            let i = choose|i: int|
                0 <= i < after.len() && #[trigger] after[i].column == column && after[i].terms@
                    == terms;
            lemma_terms_at(after, i);
        } else if has_column(after, c) {
            let i = choose|i: int| 0 <= i < after.len() && #[trigger] after[i].column == c;
            assert(after[i].column != column);
            let k = choose|k: int|
                0 <= k < before.len() && #[trigger] before[k].column == after[i].column && before[k].terms@
                    == after[i].terms@;
            lemma_terms_at(after, i);
            lemma_terms_at(before, k);
        } else if has_column(before, c) {
            let k = choose|k: int| 0 <= k < before.len() && #[trigger] before[k].column == c;
            assert(has_column(after, before[k].column as int));
        }
    }
}

/// Adds a term to the entry in a column, which is made where it is missing.
pub fn add_entry<K>(row: &mut Vec<StencilEntry<K>>, column: usize, term: K)
    requires
        increasing(old(row)@),
        filled(old(row)@),
    ensures
        increasing(final(row)@),
        filled(final(row)@),
        forall|c: int|
            #[trigger] terms_in(final(row)@, c) == if c == column {
                terms_in(old(row)@, c).push(term)
            } else {
                terms_in(old(row)@, c)
            },
        forall|i: int|
            0 <= i < final(row)@.len() ==> (#[trigger] final(row)@[i]).column == column
                || has_column(old(row)@, final(row)@[i].column as int),
{
    let ghost before = row@;
    let mut at: usize = 0;
    while at < row.len() && row[at].column < column
        invariant
            at <= row@.len(),
            row@ == before,
            forall|i: int| 0 <= i < at ==> #[trigger] row@[i].column < column,
        decreases row@.len() - at,
    {
        at += 1;
    }
    if at < row.len() && row[at].column == column {
        let mut entry = row.remove(at);
        let ghost earlier = entry.terms@;
        entry.terms.push(term);
        let ghost grown = entry;
        row.insert(at, entry);
        proof {
            lemma_terms_at(before, at as int);
            assert(row@ =~= before.update(at as int, grown));
            assert forall|i: int|
                0 <= i < row@.len() && row@[i].column != column implies exists|k: int|
                0 <= k < before.len() && #[trigger] before[k].column == row@[i].column && before[k].terms@
                    == (#[trigger] row@[i]).terms@ by {
                assert(before[i] == row@[i]);
            }
            assert forall|k: int| 0 <= k < before.len() && before[k].column != column implies has_column(
                row@,
                (#[trigger] before[k]).column as int,
            ) by {
                assert(row@[k] == before[k]);
            }
            assert(row@[at as int].column == column && row@[at as int].terms@ == earlier.push(
                term,
            ));
            lemma_terms_after(before, row@, column as int, earlier.push(term));
            assert forall|i: int| 0 <= i < row@.len() implies (#[trigger] row@[i]).column == column
                || has_column(before, row@[i].column as int) by {
                if i != at {
                    assert(before[i].column == row@[i].column);
                }
            }
        }
    } else {
        proof {
            if has_column(before, column as int) {
                let k = choose|k: int|
                    0 <= k < before.len() && #[trigger] before[k].column == column;
                if k < at {
                    assert(row@[k].column < column);
                } else {
                    assert(before[at as int].column <= before[k].column);
                }
            }
        }
        let mut terms: Vec<K> = Vec::new();
        terms.push(term);
        let entry = StencilEntry { column, terms };
        let ghost fresh = entry;
        row.insert(at, entry);
        proof {
            assert(row@ =~= before.insert(at as int, fresh));
            assert forall|i: int, j: int| 0 <= i < j < row@.len() implies row@[i].column
                < row@[j].column by {
                if i < at && j > at {
                    assert(before[i].column < before[j - 1].column);
                } else if i < at && j < at {
                    assert(before[i].column < before[j].column);
                } else if i > at {
                    assert(before[i - 1].column < before[j - 1].column);
                } else if i == at {
                    assert(row@[j] == before[j - 1]);
                    assert(before[at as int].column > column);
                    if j - 1 > at {
                        assert(before[at as int].column < before[j - 1].column);
                    }
                }
            }
            assert forall|i: int|
                0 <= i < row@.len() && row@[i].column != column implies exists|k: int|
                0 <= k < before.len() && #[trigger] before[k].column == row@[i].column && before[k].terms@
                    == (#[trigger] row@[i]).terms@ by {
                if i < at {
                    assert(before[i] == row@[i]);
                } else {
                    assert(before[i - 1] == row@[i]);
                }
            }
            assert forall|k: int| 0 <= k < before.len() && before[k].column != column implies has_column(
                row@,
                (#[trigger] before[k]).column as int,
            ) by {
                if k < at {
                    assert(row@[k] == before[k]);
                } else {
                    assert(row@[k + 1] == before[k]);
                }
            }
            assert(fresh.terms@ =~= Seq::<K>::empty().push(term));
            assert(row@[at as int].column == column && row@[at as int].terms@ == Seq::<
                K,
            >::empty().push(term));
            lemma_terms_after(before, row@, column as int, Seq::<K>::empty().push(term));
            assert forall|i: int| 0 <= i < row@.len() implies #[trigger] row@[i].terms@.len() > 0 by {
                if i < at {
                    assert(row@[i] == before[i]);
                } else if i > at {
                    assert(row@[i] == before[i - 1]);
                }
            }
            assert forall|i: int| 0 <= i < row@.len() implies (#[trigger] row@[i]).column == column
                || has_column(before, row@[i].column as int) by {
                if i < at {
                    assert(before[i].column == row@[i].column);
                } else if i > at {
                    assert(before[i - 1].column == row@[i].column);
                }
            }
        }
    }
}

/// The terms of the entry in a row and a column.
pub open spec fn terms_at<K>(rows: Seq<Vec<StencilEntry<K>>>, row: int, column: int) -> Seq<K> {
    terms_in(rows[row]@, column)
}

/// Whether the columns of every row increase and are cells, and no entry is
/// without terms.
pub open spec fn tidy<K>(rows: Seq<Vec<StencilEntry<K>>>, cells: nat) -> bool {
    &&& forall|r: int| 0 <= r < rows.len() ==> increasing((#[trigger] rows[r])@)
    &&& forall|r: int| 0 <= r < rows.len() ==> filled((#[trigger] rows[r])@)
    &&& forall|r: int, i: int|
        0 <= r < rows.len() && 0 <= i < rows[r]@.len() ==> (#[trigger] rows[r]@[i]).column < cells
}

pub(crate) fn couple<K>(
    rows: &mut Vec<Vec<StencilEntry<K>>>,
    row: usize,
    column: usize,
    term: K,
    cells: Ghost<nat>,
)
    requires
        row < old(rows)@.len(),
        column < cells@,
        tidy(old(rows)@, cells@),
    ensures
        final(rows)@.len() == old(rows)@.len(),
        tidy(final(rows)@, cells@),
        forall|r: int, c: int|
            0 <= r < final(rows)@.len() ==> #[trigger] terms_at(final(rows)@, r, c) == if r == row
                && c == column {
                terms_at(old(rows)@, r, c).push(term)
            } else {
                terms_at(old(rows)@, r, c)
            },
{
    let ghost before = rows@;
    let mut entries: Vec<StencilEntry<K>> = Vec::new();
    rows.push(entries);
    entries = rows.swap_remove(row);
    proof {
        assert(entries@ == before[row as int]@);
    }
    let ghost taken = entries@;
    add_entry(&mut entries, column, term);
    let ghost grown = entries;
    rows.set(row, entries);
    proof {
        assert(rows@ =~= before.update(row as int, grown));
        assert forall|r: int| 0 <= r < rows@.len() implies increasing((#[trigger] rows@[r])@) by {
            if r != row {
                assert(rows@[r] == before[r]);
            }
        }
        assert forall|r: int| 0 <= r < rows@.len() implies filled((#[trigger] rows@[r])@) by {
            if r != row {
                assert(rows@[r] == before[r]);
            }
        }
        assert forall|r: int, i: int| 0 <= r < rows@.len() && 0 <= i < rows@[r]@.len() implies (
        #[trigger] rows@[r]@[i]).column < cells@ by {
            if r != row {
                assert(rows@[r] == before[r]);
                assert(before[r]@[i].column < cells@);
            } else if rows@[r]@[i].column != column {
                assert(has_column(taken, rows@[r]@[i].column as int));
                let k = choose|k: int|
                    0 <= k < taken.len() && #[trigger] taken[k].column == rows@[r]@[i].column;
                assert(before[row as int]@[k].column < cells@);
            }
        }
        assert forall|r: int, c: int| 0 <= r < rows@.len() implies #[trigger] terms_at(rows@, r, c)
            == if r == row && c == column {
            terms_at(before, r, c).push(term)
        } else {
            terms_at(before, r, c)
        } by {
            if r != row {
                assert(rows@[r] == before[r]);
            }
        }
    }
}

/// Whether rows hold what the first `n` faces add to the entries.
pub open spec fn holds_faces<P, S, V>(
    rows: Seq<Vec<StencilEntry<FaceTerm>>>,
    mesh: SolverRuntimeMeshData<P, S>,
    treatments: Seq<FaceBoundaryTreatment<V>>,
    n: int,
) -> bool {
    forall|r: int, c: int|
        0 <= r < rows.len() ==> #[trigger] terms_at(rows, r, c) == entry_terms(
            mesh,
            treatments,
            n,
            r,
            c,
        )
}

fn add_face<P, S, V: Copy>(
    rows: &mut Vec<Vec<StencilEntry<FaceTerm>>>,
    mesh: &SolverRuntimeMeshData<P, S>,
    treatments: &Vec<FaceBoundaryTreatment<V>>,
    face: usize,
)
    requires
        runtime::sound(*mesh),
        treatments@.len() == mesh.faces,
        face < mesh.faces,
        old(rows)@.len() == mesh.cells,
        tidy(old(rows)@, mesh.cells as nat),
        holds_faces(old(rows)@, *mesh, treatments@, face as int),
    ensures
        final(rows)@.len() == mesh.cells,
        tidy(final(rows)@, mesh.cells as nat),
        holds_faces(final(rows)@, *mesh, treatments@, face + 1),
{
    let ghost before = rows@;
    let ghost cells = mesh.cells as nat;
    let owner: usize = mesh.owner[face];
    let plus = FaceTerm { face, positive: true };
    let minus = FaceTerm { face, positive: false };
    match mesh.neighbour[face] {
        Some(other) => {
            assert(mesh.neighbour@[face as int] == Some(other));
            couple(rows, owner, owner, plus, Ghost(cells));
            let ghost first = rows@;
            couple(rows, owner, other, minus, Ghost(cells));
            let ghost second = rows@;
            couple(rows, other, other, plus, Ghost(cells));
            let ghost third = rows@;
            couple(rows, other, owner, minus, Ghost(cells));
            proof {
                assert forall|r: int, c: int| 0 <= r < rows@.len() implies #[trigger] terms_at(
                    rows@,
                    r,
                    c,
                ) == entry_terms(*mesh, treatments@, face + 1, r, c) by {
                    assert(terms_at(third, r, c) == terms_at(third, r, c));
                    assert(terms_at(second, r, c) == terms_at(second, r, c));
                    assert(terms_at(first, r, c) == terms_at(first, r, c));
                    assert(terms_at(before, r, c) == entry_terms(
                        *mesh,
                        treatments@,
                        face as int,
                        r,
                        c,
                    ));
                    assert(terms_at(rows@, r, c) =~= terms_at(before, r, c) + face_terms(
                        *mesh,
                        treatments@,
                        face as int,
                        r,
                        c,
                    ));
                }
            }
        },
        None => {
            if let FaceBoundaryTreatment::FixedValue(_) = treatments[face] {
                couple(rows, owner, owner, plus, Ghost(cells));
            }
            proof {
                assert forall|r: int, c: int| 0 <= r < rows@.len() implies #[trigger] terms_at(
                    rows@,
                    r,
                    c,
                ) == entry_terms(*mesh, treatments@, face + 1, r, c) by {
                    assert(terms_at(before, r, c) == entry_terms(
                        *mesh,
                        treatments@,
                        face as int,
                        r,
                        c,
                    ));
                    assert(terms_at(rows@, r, c) =~= terms_at(before, r, c) + face_terms(
                        *mesh,
                        treatments@,
                        face as int,
                        r,
                        c,
                    ));
                }
            }
        },
    }
}

/// Rows without entries.
pub(crate) fn empty_rows<K>(cells: usize) -> (rows: Vec<Vec<StencilEntry<K>>>)
    ensures
        rows@.len() == cells,
        tidy(rows@, cells as nat),
        forall|r: int, c: int|
            0 <= r < rows@.len() ==> #[trigger] terms_at(rows@, r, c) == Seq::<K>::empty(),
{
    let mut rows: Vec<Vec<StencilEntry<K>>> = Vec::new();
    let mut cell: usize = 0;
    while cell < cells
        invariant
            cell <= cells,
            rows@.len() == cell,
            forall|r: int| 0 <= r < cell ==> (#[trigger] rows@[r])@.len() == 0,
        decreases cells - cell,
    {
        rows.push(Vec::new());
        cell += 1;
    }
    assert forall|r: int, c: int| 0 <= r < rows@.len() implies #[trigger] terms_at(rows@, r, c)
        == Seq::<K>::empty() by {
        assert(rows@[r]@.len() == 0);
        assert(!has_column(rows@[r]@, c));
    }
    rows
}

/// The shape of the diffusion matrix of a mesh.
pub fn diffusion_stencil<P, S, V: Copy>(
    mesh: &SolverRuntimeMeshData<P, S>,
    treatments: &Vec<FaceBoundaryTreatment<V>>,
) -> (stencil: DiffusionStencil)
    requires
        runtime::sound(*mesh),
        treatments@.len() == mesh.faces,
    ensures
        stencil.rows@.len() == mesh.cells,
        tidy(stencil.rows@, mesh.cells as nat),
        holds_faces(stencil.rows@, *mesh, treatments@, mesh.faces as int),
        counted(*mesh, treatments@, mesh.faces as int) == (
            stencil.counts.internal_faces as nat,
            stencil.counts.fixed_value_faces as nat,
            stencil.counts.zero_gradient_faces as nat,
            stencil.counts.constraint_faces as nat,
        ),
{
    let mut rows: Vec<Vec<StencilEntry<FaceTerm>>> = empty_rows(mesh.cells);
    let mut counts = FaceCounts {
        internal_faces: 0,
        fixed_value_faces: 0,
        zero_gradient_faces: 0,
        constraint_faces: 0,
    };
    let mut face: usize = 0;
    assert(holds_faces(rows@, *mesh, treatments@, 0));
    while face < mesh.faces
        invariant
            face <= mesh.faces,
            runtime::sound(*mesh),
            treatments@.len() == mesh.faces,
            rows@.len() == mesh.cells,
            tidy(rows@, mesh.cells as nat),
            holds_faces(rows@, *mesh, treatments@, face as int),
            counted(*mesh, treatments@, face as int) == (
                counts.internal_faces as nat,
                counts.fixed_value_faces as nat,
                counts.zero_gradient_faces as nat,
                counts.constraint_faces as nat,
            ),
            counts.internal_faces + counts.fixed_value_faces + counts.zero_gradient_faces
                + counts.constraint_faces == face,
        decreases mesh.faces - face,
    {
        add_face(&mut rows, mesh, treatments, face);
        match mesh.neighbour[face] {
            Some(_) => {
                counts.internal_faces += 1;
            },
            None => match treatments[face] {
                FaceBoundaryTreatment::FixedValue(_) => {
                    counts.fixed_value_faces += 1;
                },
                FaceBoundaryTreatment::ZeroGradient => {
                    counts.zero_gradient_faces += 1;
                },
                FaceBoundaryTreatment::Constraint => {
                    counts.constraint_faces += 1;
                },
            },
        }
        face += 1;
    }
    DiffusionStencil { rows, counts }
}

/// Whether the faces of terms increase: no face enters twice.
pub open spec fn faces_increase(terms: Seq<FaceTerm>) -> bool {
    forall|i: int, j: int|
        0 <= i < j < terms.len() ==> (#[trigger] terms[i]).face < (#[trigger] terms[j]).face
}

/// The entries of the diffusion matrix, where no face has one cell on both sides: a
/// face enters the diagonal of a cell with its coefficient where it lies between
/// that cell and another one, or fixes the value on the boundary of that cell; it
/// enters between two cells with its sign changed where it lies between them. It
/// enters no other entry, and none twice.
pub proof fn entries_hold_their_faces<P, S, V>(
    mesh: SolverRuntimeMeshData<P, S>,
    treatments: Seq<FaceBoundaryTreatment<V>>,
    n: int,
    row: int,
    column: int,
)
    requires
        forall|i: int|
            0 <= i < mesh.faces ==> (#[trigger] mesh.neighbour@[i]) != Some(mesh.owner@[i]),
        0 <= n <= mesh.faces,
    ensures
        ({
            let terms = entry_terms(mesh, treatments, n, row, column);
            &&& faces_increase(terms)
            &&& forall|k: int| 0 <= k < terms.len() ==> (#[trigger] terms[k]).face < n
            &&& forall|f: usize, positive: bool| #[trigger]
                terms.contains(FaceTerm { face: f, positive }) <==> f < n && (if row == column {
                    positive && (mesh.owner@[f as int] == row && (mesh.neighbour@[f as int] is Some
                        || treatments[f as int] is FixedValue) || mesh.neighbour@[f as int] is Some
                        && mesh.neighbour@[f as int]->0 == row)
                } else {
                    !positive && mesh.neighbour@[f as int] is Some && (mesh.owner@[f as int] == row
                        && mesh.neighbour@[f as int]->0 == column || mesh.owner@[f as int] == column
                        && mesh.neighbour@[f as int]->0 == row)
                })
        }),
    decreases n,
{
    if n > 0 {
        entries_hold_their_faces(mesh, treatments, n - 1, row, column);
        let before = entry_terms(mesh, treatments, n - 1, row, column);
        let added = face_terms(mesh, treatments, n - 1, row, column);
        let all = entry_terms(mesh, treatments, n, row, column);
        assert(mesh.neighbour@[n - 1] != Some(mesh.owner@[n - 1]));
        assert(added.len() <= 1);
        assert(added.len() == 1 ==> added[0].face == n - 1);
        if added.len() == 0 {
            assert(all =~= before);
        } else {
            assert(all =~= before.push(added[0]));
        }
        assert forall|f: usize, positive: bool| #[trigger]
            all.contains(FaceTerm { face: f, positive }) <==> before.contains(
                FaceTerm { face: f, positive },
            ) || (added.len() == 1 && added[0] == FaceTerm { face: f, positive }) by {
            let term = FaceTerm { face: f, positive };
            if before.contains(term) {
                let k = choose|k: int| 0 <= k < before.len() && before[k] == term;
                assert(all[k] == term);
            }
            if added.len() == 1 && added[0] == term {
                assert(all[before.len() as int] == term);
            }
        }
    }
}

/// How many of the first `n` faces are of a kind.
pub open spec fn tally(kind: spec_fn(int) -> bool, n: int) -> nat
    decreases n,
{
    if n <= 0 {
        0
    } else {
        tally(kind, n - 1) + if kind(n - 1) {
            1nat
        } else {
            0
        }
    }
}

/// Every face is counted once: between two cells, with a fixed value, free, or as a
/// constraint.
pub proof fn faces_are_counted_by_kind<P, S, V>(
    mesh: SolverRuntimeMeshData<P, S>,
    treatments: Seq<FaceBoundaryTreatment<V>>,
    n: int,
)
    requires
        0 <= n,
    ensures
        ({
            let (internal, fixed, free, constraint) = counted(mesh, treatments, n);
            &&& internal == tally(|i: int| mesh.neighbour@[i] is Some, n)
            &&& fixed == tally(
                |i: int| mesh.neighbour@[i] is None && treatments[i] is FixedValue,
                n,
            )
            &&& free == tally(
                |i: int| mesh.neighbour@[i] is None && treatments[i] is ZeroGradient,
                n,
            )
            &&& constraint == tally(
                |i: int| mesh.neighbour@[i] is None && treatments[i] is Constraint,
                n,
            )
            &&& internal + fixed + free + constraint == n
        }),
    decreases n,
{
    if n > 0 {
        faces_are_counted_by_kind(mesh, treatments, n - 1);
    }
}

} // verus!
