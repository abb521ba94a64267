//! The faces between the cells of an imported mesh.

use crate::face_keys;
use crate::face_keys::KeyIndex;
use crate::mesh;
use crate::mesh::{BoundaryFace, Cell, Mesh, PhysicalName};
use vstd::prelude::*;

verus! {

/// The patch of a boundary face.
#[derive(Debug)]
pub struct BoundaryPatchRef {
    pub name: String,
    pub physical_tag: Option<i32>,
}

/// A face of one cell, or between two.
#[derive(Debug)]
pub struct FaceRecord {
    pub nodes: Vec<usize>,
    pub owner: usize,
    pub neighbour: Option<usize>,
    pub patch: Option<BoundaryPatchRef>,
}

/// The faces of a mesh, and what is wrong with them.
#[derive(Debug)]
pub struct Topology {
    pub faces: Vec<FaceRecord>,
    pub unmatched_boundary_faces: usize,
    pub duplicate_boundary_faces: usize,
    pub non_manifold_faces: usize,
}

/// The mathematical view of a [`FaceRecord`] without its patch.
pub struct FaceShape {
    pub nodes: Seq<usize>,
    pub owner: usize,
    pub neighbour: Option<usize>,
}

/// Faces, and how often a cell met a face that two cells share already.
pub struct Shapes {
    pub faces: Seq<FaceShape>,
    pub non_manifold: nat,
}

/// A patch as it is viewed: its name and its tag.
pub type PatchView = (Seq<char>, Option<i32>);

/// The shape of a face.
pub open spec fn shape(face: FaceRecord) -> FaceShape {
    FaceShape { nodes: face.nodes@, owner: face.owner, neighbour: face.neighbour }
}

/// The shapes of faces.
pub open spec fn shapes(faces: Seq<FaceRecord>) -> Seq<FaceShape> {
    Seq::new(faces.len(), |i: int| shape(faces[i]))
}

/// The patch of a face.
pub open spec fn patch_view(patch: Option<BoundaryPatchRef>) -> Option<PatchView> {
    match patch {
        Some(inner) => Some((inner.name@, inner.physical_tag)),
        None => None,
    }
}

/// The keys of faces.
pub open spec fn keys_of(faces: Seq<FaceShape>) -> Seq<Seq<usize>> {
    Seq::new(faces.len(), |i: int| face_keys::face_key(faces[i].nodes))
}

/// Four nodes.
pub open spec fn quad(nodes: Seq<usize>, a: int, b: int, c: int, d: int) -> Seq<usize> {
    Seq::empty().push(nodes[a]).push(nodes[b]).push(nodes[c]).push(nodes[d])
}

/// The faces of a cell with these corners, each seen from outside: of a
/// hexahedron or a prism.
pub open spec fn local_faces(nodes: Seq<usize>) -> Seq<Seq<usize>> {
    if nodes.len() == 6 {
        Seq::empty().push(Seq::empty().push(nodes[0]).push(nodes[2]).push(nodes[1])).push(
            Seq::empty().push(nodes[3]).push(nodes[4]).push(nodes[5]),
        ).push(quad(nodes, 0, 1, 4, 3)).push(quad(nodes, 1, 2, 5, 4)).push(
            quad(nodes, 2, 0, 3, 5),
        )
    } else if nodes.len() == 8 {
        Seq::empty().push(quad(nodes, 0, 3, 2, 1)).push(quad(nodes, 4, 5, 6, 7)).push(
            quad(nodes, 0, 1, 5, 4),
        ).push(quad(nodes, 1, 2, 6, 5)).push(quad(nodes, 2, 3, 7, 6)).push(
            quad(nodes, 3, 0, 4, 7),
        )
    } else {
        Seq::empty()
    }
}

impl Shapes {
    /// The faces after a cell has met a face with these nodes: a face that is
    /// new becomes its own, a face of one cell is shared, and a face of two
    /// cells cannot be.
    pub open spec fn met(self, cell: usize, nodes: Seq<usize>) -> Shapes {
        match face_keys::place_of(keys_of(self.faces), face_keys::face_key(nodes)) {
            Some(at) => if self.faces[at].neighbour is Some {
                Shapes { non_manifold: self.non_manifold + 1, ..self }
            } else {
                Shapes {
                    faces: self.faces.update(
                        at,
                        FaceShape { neighbour: Some(cell), ..self.faces[at] },
                    ),
                    ..self
                }
            },
            None => Shapes {
                faces: self.faces.push(FaceShape { nodes, owner: cell, neighbour: None }),
                ..self
            },
        }
    }

    /// The faces after a cell has met the first `k` of these.
    pub open spec fn met_all(self, cell: usize, local: Seq<Seq<usize>>, k: int) -> Shapes
        decreases k,
    {
        if k <= 0 {
            self
        } else {
            self.met_all(cell, local, k - 1).met(cell, local[k - 1])
        }
    }
}

/// The faces of the first `n` cells.
pub open spec fn shapes_of(cells: Seq<Cell>, n: int) -> Shapes
    decreases n,
{
    if n <= 0 {
        Shapes { faces: Seq::empty(), non_manifold: 0 }
    } else {
        let local = local_faces(cells[n - 1].nodes@);
        shapes_of(cells, n - 1).met_all((n - 1) as usize, local, local.len() as int)
    }
}

/// How many of the first `n` faces lie between two cells.
pub open spec fn shared(faces: Seq<FaceShape>, n: int) -> nat
    decreases n,
{
    if n <= 0 {
        0
    } else {
        shared(faces, n - 1) + if faces[n - 1].neighbour is Some {
            1nat
        } else {
            0
        }
    }
}

/// The keys of boundary faces.
pub open spec fn boundary_keys(faces: Seq<BoundaryFace>) -> Seq<Seq<usize>> {
    Seq::new(faces.len(), |i: int| face_keys::face_key(faces[i].nodes@))
}

/// The keys among the first `n`, each where it first occurs.
pub open spec fn first_keys(keys: Seq<Seq<usize>>, n: int) -> Seq<Seq<usize>>
    decreases n,
{
    if n <= 0 {
        Seq::empty()
    } else {
        let earlier = first_keys(keys, n - 1);
        if earlier.contains(keys[n - 1]) {
            earlier
        } else {
            earlier.push(keys[n - 1])
        }
    }
}

/// The last of the first `n` places where a key occurs.
pub open spec fn last_place(keys: Seq<Seq<usize>>, key: Seq<usize>, n: int) -> Option<int>
    decreases n,
{
    if n <= 0 {
        None
    } else if keys[n - 1] == key {
        Some(n - 1)
    } else {
        last_place(keys, key, n - 1)
    }
}

/// How many of the first `n` keys do not occur among `known`.
pub open spec fn missing(keys: Seq<Seq<usize>>, known: Seq<Seq<usize>>, n: int) -> nat
    decreases n,
{
    if n <= 0 {
        0
    } else {
        missing(keys, known, n - 1) + if face_keys::place_of(known, keys[n - 1]) is None {
            1nat
        } else {
            0
        }
    }
}

/// The patch of a face: none between two cells; on the boundary that of the
/// last boundary face with its nodes, or a default where there is none.
pub open spec fn patch_of(
    names: Seq<PhysicalName>,
    boundary: Seq<BoundaryFace>,
    face: FaceShape,
) -> Option<PatchView> {
    if face.neighbour is Some {
        None
    } else {
        let keys = boundary_keys(boundary);
        match last_place(keys, face_keys::face_key(face.nodes), keys.len() as int) {
            Some(at) => Some(
                (
                    mesh::sanitized(mesh::group_name(names, boundary[at].physical_tag)),
                    Some(boundary[at].physical_tag),
                ),
            ),
            None => Some(("defaultFaces"@, None)),
        }
    }
}

proof fn lemma_keys_updated(faces: Seq<FaceShape>, at: int, cell: usize)
    requires
        0 <= at < faces.len(),
    ensures
        keys_of(faces.update(at, FaceShape { neighbour: Some(cell), ..faces[at] })) == keys_of(
            faces,
        ),
{
    assert(keys_of(faces.update(at, FaceShape { neighbour: Some(cell), ..faces[at] })) =~= keys_of(
        faces,
    ));
}

proof fn lemma_shared_updated(faces: Seq<FaceShape>, at: int, cell: usize, n: int)
    requires
        0 <= at < faces.len(),
        faces[at].neighbour is None,
        0 <= n <= faces.len(),
    ensures
        shared(faces.update(at, FaceShape { neighbour: Some(cell), ..faces[at] }), n) == shared(
            faces,
            n,
        ) + if at < n {
            1nat
        } else {
            0
        },
    decreases n,
{
    if n > 0 {
        lemma_shared_updated(faces, at, cell, n - 1);
    }
}

proof fn lemma_shared_pushed(faces: Seq<FaceShape>, face: FaceShape, n: int)
    requires
        0 <= n <= faces.len(),
    ensures
        shared(faces.push(face), n) == shared(faces, n),
    decreases n,
{
    if n > 0 {
        lemma_shared_pushed(faces, face, n - 1);
    }
}

/// What holds of the faces of the first `n` cells, of which `met` have been
/// met: no two have the same nodes, their cells are among the first, and every
/// time a cell met a face it was new, was shared or could not be.
pub open spec fn sound(state: Shapes, cells: int, met: int) -> bool {
    &&& face_keys::distinct(keys_of(state.faces))
    &&& forall|i: int|
        0 <= i < state.faces.len() ==> (#[trigger] state.faces[i]).owner < cells
            && match state.faces[i].neighbour {
            Some(other) => state.faces[i].owner <= other < cells,
            None => true,
        }
    &&& met == state.faces.len() + shared(state.faces, state.faces.len() as int)
        + state.non_manifold
}

proof fn lemma_met_is_sound(state: Shapes, cell: usize, nodes: Seq<usize>, met: int)
    requires
        sound(state, cell + 1, met),
    ensures
        sound(state.met(cell, nodes), cell + 1, met + 1),
{
    let keys = keys_of(state.faces);
    let key = face_keys::face_key(nodes);
    let after = state.met(cell, nodes);
    face_keys::lemma_place_holds(keys, key, 0);
    match face_keys::place_of(keys, key) {
        Some(at) => {
            if state.faces[at].neighbour is None {
                lemma_keys_updated(state.faces, at, cell);
                lemma_shared_updated(state.faces, at, cell, state.faces.len() as int);
            }
        },
        None => {
            let face = FaceShape { nodes, owner: cell, neighbour: None };
            assert(keys_of(after.faces) =~= keys.push(key));
            lemma_shared_pushed(state.faces, face, state.faces.len() as int);
            assert forall|i: int, j: int|
                0 <= i < j < keys_of(after.faces).len() implies keys_of(after.faces)[i] != keys_of(
                after.faces,
            )[j] by {
                if j == keys.len() {
                    assert(keys[i] != key);
                }
            }
        },
    }
}

proof fn lemma_met_all_is_sound(
    state: Shapes,
    cell: usize,
    local: Seq<Seq<usize>>,
    k: int,
    met: int,
)
    requires
        sound(state, cell + 1, met),
        0 <= k <= local.len(),
    ensures
        sound(state.met_all(cell, local, k), cell + 1, met + k),
    decreases k,
{
    if k > 0 {
        lemma_met_all_is_sound(state, cell, local, k - 1, met);
        lemma_met_is_sound(state.met_all(cell, local, k - 1), cell, local[k - 1], met + k - 1);
    }
}

/// What holds of the faces of a mesh: no two have the same nodes, each
/// belongs to one cell or to two, the first of which owns it, and the six
/// faces of all cells are the faces, once more those between two cells, and
/// those that could not be shared.
pub proof fn topology_is_sound(cells: Seq<Cell>, n: int)
    requires
        0 <= n <= cells.len(),
        cells.len() <= usize::MAX,
    ensures
        sound(shapes_of(cells, n), n, 6 * n),
    decreases n,
{
    if n > 0 {
        topology_is_sound(cells, n - 1);
        let before = shapes_of(cells, n - 1);
        let local = local_faces(cells[n - 1].nodes@);
        assert(local.len() == 6);
        assert(sound(before, n, 6 * (n - 1)));
        lemma_met_all_is_sound(before, (n - 1) as usize, local, 6, 6 * (n - 1));
    }
}

/// Whether faces are polygons whose corners are among the first `points` points.
pub open spec fn are_polygons(faces: Seq<FaceShape>, points: nat) -> bool {
    forall|i: int|
        0 <= i < faces.len() ==> (#[trigger] faces[i]).nodes.len() >= 3 && forall|k: int|
            0 <= k < faces[i].nodes.len() ==> #[trigger] faces[i].nodes[k] < points
}

proof fn lemma_local_faces(nodes: Seq<usize>, points: nat)
    requires
        nodes.len() == 8,
        forall|k: int| 0 <= k < 8 ==> #[trigger] nodes[k] < points,
    ensures
        forall|i: int|
            #![trigger local_faces(nodes)[i]]
            0 <= i < local_faces(nodes).len() ==> local_faces(nodes)[i].len() == 4 && forall|k: int|
                0 <= k < 4 ==> #[trigger] local_faces(nodes)[i][k] < points,
{
}

proof fn lemma_met_polygons(
    state: Shapes,
    cell: usize,
    local: Seq<Seq<usize>>,
    k: int,
    points: nat,
)
    requires
        0 <= k <= local.len(),
        are_polygons(state.faces, points),
        forall|i: int|
            #![trigger local[i]]
            0 <= i < local.len() ==> local[i].len() == 4 && forall|j: int|
                0 <= j < 4 ==> #[trigger] local[i][j] < points,
    ensures
        are_polygons(state.met_all(cell, local, k).faces, points),
    decreases k,
{
    if k > 0 {
        lemma_met_polygons(state, cell, local, k - 1, points);
        let before = state.met_all(cell, local, k - 1);
        let nodes = local[k - 1];
        let after = before.met(cell, nodes);
        let keys = keys_of(before.faces);
        face_keys::lemma_place_holds(keys, face_keys::face_key(nodes), 0);
        assert forall|i: int| 0 <= i < after.faces.len() implies (
        #[trigger] after.faces[i]).nodes.len() >= 3 && forall|j: int|
            0 <= j < after.faces[i].nodes.len() ==> #[trigger] after.faces[i].nodes[j] < points by {
            if i < before.faces.len() {
                assert(after.faces[i].nodes == before.faces[i].nodes);
            } else {
                assert(after.faces[i].nodes == nodes);
            }
        }
    }
}

/// The faces of cells that stand on points stand on them too, and each has
/// enough corners.
pub proof fn faces_stand_on_points(cells: Seq<Cell>, n: int, points: nat)
    requires
        0 <= n <= cells.len(),
        forall|i: int, k: int|
            0 <= i < cells.len() && 0 <= k < 8 ==> #[trigger] cells[i].nodes@[k] < points,
    ensures
        are_polygons(shapes_of(cells, n).faces, points),
    decreases n,
{
    if n > 0 {
        faces_stand_on_points(cells, n - 1, points);
        let nodes = cells[n - 1].nodes@;
        assert forall|k: int| 0 <= k < 8 implies #[trigger] nodes[k] < points by {
            assert(cells[n - 1].nodes@[k] < points);
        }
        lemma_local_faces(nodes, points);
        let local = local_faces(nodes);
        lemma_met_polygons(
            shapes_of(cells, n - 1),
            (n - 1) as usize,
            local,
            local.len() as int,
            points,
        );
    }
}

fn four(nodes: &[usize], a: usize, b: usize, c: usize, d: usize) -> (out: Vec<usize>)
    requires
        a < nodes@.len(),
        b < nodes@.len(),
        c < nodes@.len(),
        d < nodes@.len(),
    ensures
        out@ == quad(nodes@, a as int, b as int, c as int, d as int),
{
    let mut out: Vec<usize> = Vec::new();
    out.push(nodes[a]);
    out.push(nodes[b]);
    out.push(nodes[c]);
    out.push(nodes[d]);
    out
}

fn three(nodes: &[usize], a: usize, b: usize, c: usize) -> (out: Vec<usize>)
    requires
        a < nodes@.len(),
        b < nodes@.len(),
        c < nodes@.len(),
    ensures
        out@ == Seq::empty().push(nodes@[a as int]).push(nodes@[b as int]).push(nodes@[c as int]),
{
    let mut out: Vec<usize> = Vec::new();
    out.push(nodes[a]);
    out.push(nodes[b]);
    out.push(nodes[c]);
    out
}

/// The faces of a cell with these corners, each seen from outside: of a
/// hexahedron or a prism.
pub fn cell_faces(nodes: &[usize]) -> (faces: Vec<Vec<usize>>)
    ensures
        face_keys::key_views(faces@) == local_faces(nodes@),
{
    let mut faces: Vec<Vec<usize>> = Vec::new();
    if nodes.len() == 6 {
        faces.push(three(nodes, 0, 2, 1));
        faces.push(three(nodes, 3, 4, 5));
        faces.push(four(nodes, 0, 1, 4, 3));
        faces.push(four(nodes, 1, 2, 5, 4));
        faces.push(four(nodes, 2, 0, 3, 5));
    } else if nodes.len() == 8 {
        faces.push(four(nodes, 0, 3, 2, 1));
        faces.push(four(nodes, 4, 5, 6, 7));
        faces.push(four(nodes, 0, 1, 5, 4));
        faces.push(four(nodes, 1, 2, 6, 5));
        faces.push(four(nodes, 2, 3, 7, 6));
        faces.push(four(nodes, 3, 0, 4, 7));
    }
    assert(face_keys::key_views(faces@) =~= local_faces(nodes@));
    faces
}

/// The faces of a mesh under way.
struct Builder {
    faces: Vec<FaceRecord>,
    index: KeyIndex,
    non_manifold: usize,
}

impl Builder {
    spec fn state(&self) -> Shapes {
        Shapes { faces: shapes(self.faces@), non_manifold: self.non_manifold as nat }
    }

    spec fn valid(&self) -> bool {
        &&& self.index.valid()
        &&& self.index@ == keys_of(shapes(self.faces@))
        &&& forall|i: int| 0 <= i < self.faces@.len() ==> (#[trigger] self.faces@[i]).patch is None
    }

    fn meet(&mut self, cell: usize, nodes: Vec<usize>)
        requires
            old(self).valid(),
            old(self).non_manifold < usize::MAX,
        ensures
            final(self).valid(),
            final(self).state() == old(self).state().met(cell, nodes@),
    {
        let ghost before = shapes(self.faces@);
        let ghost records = self.faces@;
        let key = face_keys::key_from_nodes(nodes.as_slice());
        match self.index.find(&key) {
            Some(at) => {
                assert(before[at as int] == shape(self.faces@[at as int]));
                if self.faces[at].neighbour.is_some() {
                    self.non_manifold += 1;
                } else {
                    self.faces[at].neighbour = Some(cell);
                    proof {
                        let wanted = before.update(
                            at as int,
                            FaceShape { neighbour: Some(cell), ..before[at as int] },
                        );
                        assert(shapes(self.faces@) =~= wanted);
                        lemma_keys_updated(before, at as int, cell);
                        assert forall|i: int| 0 <= i < self.faces@.len() implies (
                        #[trigger] self.faces@[i]).patch is None by {
                            assert(records[i].patch is None);
                        }
                    }
                }
            },
            None => {
                let ghost face = FaceShape { nodes: nodes@, owner: cell, neighbour: None };
                self.index.push(key);
                self.faces.push(FaceRecord { nodes, owner: cell, neighbour: None, patch: None });
                proof {
                    assert(shapes(self.faces@) =~= before.push(face));
                    assert(keys_of(before.push(face)) =~= keys_of(before).push(
                        face_keys::face_key(face.nodes),
                    ));
                }
            },
        }
    }
}

fn build_faces(cells: &Vec<Cell>) -> (built: Builder)
    requires
        cells@.len() * 6 <= usize::MAX,
    ensures
        built.valid(),
        built.state() == shapes_of(cells@, cells@.len() as int),
{
    let mut built = Builder { faces: Vec::new(), index: KeyIndex::new(), non_manifold: 0 };
    assert(shapes(built.faces@) =~= Seq::empty());
    assert(keys_of(shapes(built.faces@)) =~= Seq::empty());
    let mut cell: usize = 0;
    while cell < cells.len()
        invariant
            cell <= cells@.len(),
            cells@.len() * 6 <= usize::MAX,
            built.valid(),
            built.state() == shapes_of(cells@, cell as int),
        decreases cells@.len() - cell,
    {
        let ghost start = built.state();
        let mut local = cell_faces(cells[cell].nodes.as_slice());
        let ghost wanted = local_faces(cells@[cell as int].nodes@);
        let count: usize = local.len();
        proof {
            topology_is_sound(cells@, cell as int);
            assert(face_keys::key_views(local@).len() == local@.len());
        }
        let mut k: usize = 0;
        while k < count
            invariant
                k <= count,
                cell < cells@.len(),
                count == wanted.len(),
                count == 6,
                cells@.len() * 6 <= usize::MAX,
                local@.len() == count,
                sound(start, cell as int, 6 * cell as int),
                forall|m: int| k <= m < count ==> (#[trigger] local@[m])@ == wanted[m],
                built.valid(),
                built.state() == start.met_all(cell, wanted, k as int),
            decreases count - k,
        {
            let ghost before = local@;
            let mut nodes: Vec<usize> = Vec::new();
            std::mem::swap(&mut nodes, &mut local[k]);
            assert(nodes@ == wanted[k as int]);
            proof {
                assert(sound(start, cell + 1, 6 * cell as int));
                lemma_met_all_is_sound(start, cell, wanted, k as int, 6 * cell as int);
            }
            built.meet(cell, nodes);
            assert forall|m: int| k + 1 <= m < count implies (#[trigger] local@[m])@ == wanted[m] by {
                assert(before[m]@ == wanted[m]);
            }
            k += 1;
        }
        cell += 1;
    }
    built
}

/// The boundary faces of a mesh by their keys: each key with its last face.
struct Boundary {
    index: KeyIndex,
    last: Vec<usize>,
}

fn build_boundary(faces: &Vec<BoundaryFace>) -> (built: Boundary)
    ensures
        built.index.valid(),
        built.index@ == first_keys(boundary_keys(faces@), faces@.len() as int),
        built.last@.len() == built.index@.len(),
        forall|i: int|
            0 <= i < built.last@.len() ==> last_place(
                boundary_keys(faces@),
                built.index@[i],
                faces@.len() as int,
            ) == Some(#[trigger] built.last@[i] as int),
        built.index@.len() <= faces@.len(),
{
    let ghost keys = boundary_keys(faces@);
    let mut index = KeyIndex::new();
    let mut last: Vec<usize> = Vec::new();
    let mut at: usize = 0;
    while at < faces.len()
        invariant
            at <= faces@.len(),
            keys == boundary_keys(faces@),
            index.valid(),
            index@ == first_keys(keys, at as int),
            last@.len() == index@.len(),
            last@.len() <= at,
            forall|i: int|
                0 <= i < last@.len() ==> last_place(keys, index@[i], at as int) == Some(
                    #[trigger] last@[i] as int,
                ),
        decreases faces@.len() - at,
    {
        let ghost before = index@;
        let ghost old_last = last@;
        let key = face_keys::key_from_nodes(faces[at].nodes.as_slice());
        assert(key@ == keys[at as int]);
        proof {
            face_keys::lemma_place_holds(before, key@, 0);
        }
        match index.find(&key) {
            Some(place) => {
                last.set(place, at);
                proof {
                    assert(before[place as int] == keys[at as int]);
                    assert(before.contains(keys[at as int]));
                    assert forall|i: int| 0 <= i < last@.len() implies last_place(
                        keys,
                        index@[i],
                        at + 1,
                    ) == Some(#[trigger] last@[i] as int) by {
                        if i != place {
                            assert(old_last[i] == last@[i]);
                            assert(index@[i] != index@[place as int]);
                        }
                    }
                }
            },
            None => {
                assert(!before.contains(keys[at as int])) by {
                    if before.contains(keys[at as int]) {
                        let i = choose|i: int|
                            0 <= i < before.len() && before[i] == keys[at as int];
                        assert(before[i] != key@);
                    }
                }
                index.push(key);
                last.push(at);
                assert forall|i: int| 0 <= i < last@.len() implies last_place(
                    keys,
                    index@[i],
                    at + 1,
                ) == Some(#[trigger] last@[i] as int) by {
                    if i < before.len() {
                        assert(old_last[i] == last@[i]);
                        assert(index@[i] == before[i]);
                        assert(before[i] != keys[at as int]);
                    }
                }
            },
        }
        at += 1;
    }
    Boundary { index, last }
}

/// Every key among the first `n` is listed where it first occurs.
proof fn lemma_first_keys(keys: Seq<Seq<usize>>, key: Seq<usize>, n: int)
    requires
        0 <= n <= keys.len(),
    ensures
        first_keys(keys, n).contains(key) <==> last_place(keys, key, n) is Some,
    decreases n,
{
    if n > 0 {
        lemma_first_keys(keys, key, n - 1);
        let earlier = first_keys(keys, n - 1);
        if !earlier.contains(keys[n - 1]) {
            let now = earlier.push(keys[n - 1]);
            if keys[n - 1] == key {
                assert(now[earlier.len() as int] == key);
            } else {
                if earlier.contains(key) {
                    let i = choose|i: int| 0 <= i < earlier.len() && earlier[i] == key;
                    assert(now[i] == key);
                }
                if now.contains(key) {
                    let i = choose|i: int| 0 <= i < now.len() && now[i] == key;
                    assert(earlier[i] == key);
                }
            }
        }
    }
}

fn count_missing(keys: &KeyIndex, known: &KeyIndex) -> (count: usize)
    requires
        known.valid(),
    ensures
        count == missing(keys@, known@, keys@.len() as int),
{
    let mut count: usize = 0;
    let mut at: usize = 0;
    while at < keys.len()
        invariant
            at <= keys@.len(),
            known.valid(),
            count <= at,
            count == missing(keys@, known@, at as int),
        decreases keys@.len() - at,
    {
        if known.find(keys.key(at)).is_none() {
            count += 1;
        }
        at += 1;
    }
    count
}

fn find_patch(
    names: &Vec<PhysicalName>,
    boundary: &Vec<BoundaryFace>,
    found: &Boundary,
    face: &FaceRecord,
) -> (patch: Option<BoundaryPatchRef>)
    requires
        found.index.valid(),
        found.index@ == first_keys(boundary_keys(boundary@), boundary@.len() as int),
        found.last@.len() == found.index@.len(),
        forall|i: int|
            0 <= i < found.last@.len() ==> last_place(
                boundary_keys(boundary@),
                found.index@[i],
                boundary@.len() as int,
            ) == Some(#[trigger] found.last@[i] as int),
    ensures
        patch_view(patch) == patch_of(names@, boundary@, shape(*face)),
{
    if face.neighbour.is_some() {
        return None;
    }
    let ghost keys = boundary_keys(boundary@);
    let key = face_keys::key_from_nodes(face.nodes.as_slice());
    proof {
        lemma_first_keys(keys, key@, keys.len() as int);
        face_keys::lemma_place_holds(found.index@, key@, 0);
    }
    match found.index.find(&key) {
        Some(place) => {
            let at: usize = found.last[place];
            proof {
                lemma_last_place_bound(keys, key@, keys.len() as int);
            }
            let tag: i32 = boundary[at].physical_tag;
            let name = mesh::sanitize_name(mesh::physical_name(names, tag).as_str());
            Some(BoundaryPatchRef { name, physical_tag: Some(tag) })
        },
        None => {
            proof {
                if found.index@.contains(key@) {
                    let i = choose|i: int|
                        0 <= i < found.index@.len() && found.index@[i] == key@;
                    assert(found.index@[i] != key@);
                }
            }
            Some(BoundaryPatchRef { name: "defaultFaces".to_string(), physical_tag: None })
        },
    }
}

proof fn lemma_last_place_bound(keys: Seq<Seq<usize>>, key: Seq<usize>, n: int)
    requires
        0 <= n <= keys.len(),
    ensures
        match last_place(keys, key, n) {
            Some(at) => 0 <= at < n && keys[at] == key,
            None => true,
        },
    decreases n,
{
    if n > 0 && keys[n - 1] != key {
        lemma_last_place_bound(keys, key, n - 1);
    }
}

/// The faces of a mesh: each with its cells, and on the boundary with its
/// patch. Boundary faces that match no face of a cell, that repeat another one,
/// and cells that share a face with two others are counted.
pub fn build_topology<P>(mesh: &Mesh<P>) -> (topology: Topology)
    requires
        mesh.cells@.len() * 6 <= usize::MAX,
    ensures
        ({
            let state = shapes_of(mesh.cells@, mesh.cells@.len() as int);
            let keys = boundary_keys(mesh.boundary_faces@);
            let firsts = first_keys(keys, keys.len() as int);
            &&& shapes(topology.faces@) == state.faces
            &&& forall|i: int|
                0 <= i < topology.faces@.len() ==> patch_view(
                    (#[trigger] topology.faces@[i]).patch,
                ) == patch_of(mesh.physical_names@, mesh.boundary_faces@, shape(topology.faces@[i]))
            &&& topology.non_manifold_faces == state.non_manifold
            &&& topology.duplicate_boundary_faces == keys.len() - firsts.len()
            &&& topology.unmatched_boundary_faces == missing(
                firsts,
                keys_of(state.faces),
                firsts.len() as int,
            )
        }),
{
    let built = build_faces(&mesh.cells);
    let boundary = build_boundary(&mesh.boundary_faces);
    let unmatched: usize = count_missing(&boundary.index, &built.index);
    let duplicate: usize = mesh.boundary_faces.len() - boundary.index.len();
    let non_manifold: usize = built.non_manifold;
    let ghost state = built.state();
    let mut faces = built.faces;
    let mut at: usize = 0;
    while at < faces.len()
        invariant
            at <= faces@.len(),
            shapes(faces@) == state.faces,
            boundary.index.valid(),
            boundary.index@ == first_keys(
                boundary_keys(mesh.boundary_faces@),
                mesh.boundary_faces@.len() as int,
            ),
            boundary.last@.len() == boundary.index@.len(),
            forall|i: int|
                0 <= i < boundary.last@.len() ==> last_place(
                    boundary_keys(mesh.boundary_faces@),
                    boundary.index@[i],
                    mesh.boundary_faces@.len() as int,
                ) == Some(#[trigger] boundary.last@[i] as int),
            forall|i: int|
                0 <= i < at ==> patch_view((#[trigger] faces@[i]).patch) == patch_of(
                    mesh.physical_names@,
                    mesh.boundary_faces@,
                    shape(faces@[i]),
                ),
        decreases faces@.len() - at,
    {
        let ghost before = faces@;
        let patch = find_patch(
            &mesh.physical_names,
            &mesh.boundary_faces,
            &boundary,
            &faces[at],
        );
        faces[at].patch = patch;
        proof {
            assert(shapes(faces@) =~= shapes(before));
            assert forall|i: int| 0 <= i < at + 1 implies patch_view((#[trigger] faces@[i]).patch)
                == patch_of(
                mesh.physical_names@,
                mesh.boundary_faces@,
                shape(faces@[i]),
            ) by {
                if i < at {
                    assert(faces@[i] == before[i]);
                } else {
                    assert(shape(faces@[i]) == shape(before[i]));
                }
            }
        }
        at += 1;
    }
    Topology {
        faces,
        unmatched_boundary_faces: unmatched,
        duplicate_boundary_faces: duplicate,
        non_manifold_faces: non_manifold,
    }
}

/// Whether a face leads from the corner `a` straight to the corner `b`.
pub open spec fn leads(face: Seq<usize>, a: usize, b: usize) -> bool {
    exists|k: int|
        0 <= k < face.len() && #[trigger] face[k] == a && face[if k + 1 == face.len() {
            0
        } else {
            k + 1
        }] == b
}

/// How many faces lead from the corner `a` straight to the corner `b`.
pub open spec fn leading(faces: Seq<Seq<usize>>, a: usize, b: usize) -> nat
    decreases faces.len(),
{
    if faces.len() == 0 {
        0
    } else {
        leading(faces.drop_last(), a, b) + if leads(faces.last(), a, b) {
            1nat
        } else {
            0
        }
    }
}

/// Whether two corners of a cell are joined by an edge: the corners of the first
/// half go round the bottom, those of the second half stand above them.
pub open spec fn is_edge(corners: int, i: int, j: int) -> bool {
    let half = corners / 2;
    let ring = |a: int, b: int| b == (if a + 1 == half {
        0
    } else {
        a + 1
    });
    &&& 0 <= i < corners
    &&& 0 <= j < corners
    &&& if i < half && j < half {
        ring(i, j) || ring(j, i)
    } else if i >= half && j >= half {
        ring(i - half, j - half) || ring(j - half, i - half)
    } else {
        i - j == half || j - i == half
    }
}

proof fn lemma_leads_quad(face: Seq<usize>, a: usize, b: usize)
    requires
        face.len() == 4,
    ensures
        leads(face, a, b) <==> (face[0] == a && face[1] == b) || (face[1] == a && face[2] == b)
            || (face[2] == a && face[3] == b) || (face[3] == a && face[0] == b),
{
    if face[0] == a && face[1] == b {
        assert(leads(face, a, b));
    }
    if face[1] == a && face[2] == b {
        assert(leads(face, a, b));
    }
    if face[2] == a && face[3] == b {
        assert(leads(face, a, b));
    }
}

proof fn lemma_leads_triangle(face: Seq<usize>, a: usize, b: usize)
    requires
        face.len() == 3,
    ensures
        leads(face, a, b) <==> (face[0] == a && face[1] == b) || (face[1] == a && face[2] == b)
            || (face[2] == a && face[0] == b),
{
    if face[0] == a && face[1] == b {
        assert(leads(face, a, b));
    }
    if face[1] == a && face[2] == b {
        assert(leads(face, a, b));
    }
}

proof fn lemma_leading_pushed(faces: Seq<Seq<usize>>, face: Seq<usize>, a: usize, b: usize)
    ensures
        leading(faces.push(face), a, b) == leading(faces, a, b) + if leads(face, a, b) {
            1nat
        } else {
            0
        },
{
    assert(faces.push(face).drop_last() =~= faces);
}

proof fn lemma_leading_all(faces: Seq<Seq<usize>>, n: int, a: usize, b: usize)
    requires
        0 < n <= faces.len(),
    ensures
        leading(faces.take(n), a, b) == leading(faces.take(n - 1), a, b) + if leads(
            faces[n - 1],
            a,
            b,
        ) {
            1nat
        } else {
            0
        },
{
    assert(faces.take(n) =~= faces.take(n - 1).push(faces[n - 1]));
    lemma_leading_pushed(faces.take(n - 1), faces[n - 1], a, b);
}

/// The faces of a hexahedron close it: from each corner, exactly one face leads
/// straight to each corner at the other end of an edge, and none to any other.
/// So each edge lies between two faces, which pass it in opposite directions.
pub proof fn hexahedron_is_closed(nodes: Seq<usize>, i: int, j: int)
    requires
        nodes.len() == 8,
        nodes.no_duplicates(),
        0 <= i < 8,
        0 <= j < 8,
    ensures
        leading(local_faces(nodes), nodes[i], nodes[j]) == (if is_edge(8, i, j) {
            1nat
        } else {
            0
        }),
{
    let faces = local_faces(nodes);
    let a = nodes[i];
    let b = nodes[j];
    lemma_leading_all(faces, 1, a, b);
    lemma_leading_all(faces, 2, a, b);
    lemma_leading_all(faces, 3, a, b);
    lemma_leading_all(faces, 4, a, b);
    lemma_leading_all(faces, 5, a, b);
    lemma_leading_all(faces, 6, a, b);
    assert(faces.take(6) =~= faces);
    assert(faces.take(0) =~= Seq::empty());
    lemma_leads_quad(faces[0], a, b);
    lemma_leads_quad(faces[1], a, b);
    lemma_leads_quad(faces[2], a, b);
    lemma_leads_quad(faces[3], a, b);
    lemma_leads_quad(faces[4], a, b);
    lemma_leads_quad(faces[5], a, b);
    assert(forall|k: int| 0 <= k < 8 ==> (nodes[k] == a <==> k == i));
    assert(forall|k: int| 0 <= k < 8 ==> (nodes[k] == b <==> k == j));
}

/// The faces of a prism close it, as those of a hexahedron do.
pub proof fn prism_is_closed(nodes: Seq<usize>, i: int, j: int)
    requires
        nodes.len() == 6,
        nodes.no_duplicates(),
        0 <= i < 6,
        0 <= j < 6,
    ensures
        leading(local_faces(nodes), nodes[i], nodes[j]) == (if is_edge(6, i, j) {
            1nat
        } else {
            0
        }),
{
    let faces = local_faces(nodes);
    let a = nodes[i];
    let b = nodes[j];
    lemma_leading_all(faces, 1, a, b);
    lemma_leading_all(faces, 2, a, b);
    lemma_leading_all(faces, 3, a, b);
    lemma_leading_all(faces, 4, a, b);
    lemma_leading_all(faces, 5, a, b);
    assert(faces.take(5) =~= faces);
    assert(faces.take(0) =~= Seq::empty());
    lemma_leads_triangle(faces[0], a, b);
    lemma_leads_triangle(faces[1], a, b);
    lemma_leads_quad(faces[2], a, b);
    lemma_leads_quad(faces[3], a, b);
    lemma_leads_quad(faces[4], a, b);
    assert(forall|k: int| 0 <= k < 6 ==> (nodes[k] == a <==> k == i));
    assert(forall|k: int| 0 <= k < 6 ==> (nodes[k] == b <==> k == j));
}

/// The place of a corner of the unit cell: whether it lies to the right, to the
/// back and at the top.
pub struct Place {
    pub x: int,
    pub y: int,
    pub z: int,
}

/// The place of corner `i` of the unit cell with so many corners: the bottom goes
/// round counterclockwise as seen from above, and the second half lies above it.
pub open spec fn unit_corner(corners: int, i: int) -> Place {
    let half = corners / 2;
    let z = if i < half {
        0int
    } else {
        1
    };
    let k = i - z * half;
    if k == 0 {
        Place { x: 0, y: 0, z }
    } else if k == 1 {
        Place { x: 1, y: 0, z }
    } else if k == 2 && half == 4 {
        Place { x: 1, y: 1, z }
    } else {
        Place { x: 0, y: 1, z }
    }
}

/// The signed volume that `d` spans with the corner `a` of a face, where the face
/// comes to `a` and goes on to `b` and `c`: negative where `d` lies behind it.
pub open spec fn height(a: Place, b: Place, c: Place, d: Place) -> int {
    let (ux, uy, uz) = (b.x - a.x, b.y - a.y, b.z - a.z);
    let (vx, vy, vz) = (c.x - b.x, c.y - b.y, c.z - b.z);
    let (wx, wy, wz) = (d.x - a.x, d.y - a.y, d.z - a.z);
    ux * (vy * wz - vz * wy) + uy * (vz * wx - vx * wz) + uz * (vx * wy - vy * wx)
}

/// Each face of a hexahedron is seen from outside: it has each corner of the cell
/// that is not on it behind it.
pub proof fn hexahedron_faces_turn_outward(
    nodes: Seq<usize>,
    place: spec_fn(usize) -> Place,
    f: int,
    m: int,
)
    requires
        nodes.len() == 8,
        forall|i: int| 0 <= i < 8 ==> place(#[trigger] nodes[i]) == unit_corner(8, i),
        0 <= f < local_faces(nodes).len(),
        0 <= m < 8,
        !local_faces(nodes)[f].contains(nodes[m]),
    ensures
        ({
            let face = local_faces(nodes)[f];
            height(place(face[0]), place(face[1]), place(face[2]), place(nodes[m])) < 0
        }),
{
    let face = local_faces(nodes)[f];
    assert(face[0] != nodes[m] && face[1] != nodes[m] && face[2] != nodes[m] && face[3]
        != nodes[m]);
    assert(unit_corner(8, 0) == (Place { x: 0, y: 0, z: 0 }));
    assert(unit_corner(8, 1) == (Place { x: 1, y: 0, z: 0 }));
    assert(unit_corner(8, 2) == (Place { x: 1, y: 1, z: 0 }));
    assert(unit_corner(8, 3) == (Place { x: 0, y: 1, z: 0 }));
    assert(unit_corner(8, 4) == (Place { x: 0, y: 0, z: 1 }));
    assert(unit_corner(8, 5) == (Place { x: 1, y: 0, z: 1 }));
    assert(unit_corner(8, 6) == (Place { x: 1, y: 1, z: 1 }));
    assert(unit_corner(8, 7) == (Place { x: 0, y: 1, z: 1 }));
    let d = place(nodes[m]);
    assert(d == unit_corner(8, m));
    if f == 0 {
        assert(place(face[0]) == unit_corner(8, 0));
        assert(place(face[1]) == unit_corner(8, 3));
        assert(place(face[2]) == unit_corner(8, 2));
        assert(height(
            Place { x: 0, y: 0, z: 0 },
            Place { x: 0, y: 1, z: 0 },
            Place { x: 1, y: 1, z: 0 },
            d,
        ) == 0 - d.z) by (nonlinear_arith);
    } else if f == 1 {
        assert(place(face[0]) == unit_corner(8, 4));
        assert(place(face[1]) == unit_corner(8, 5));
        assert(place(face[2]) == unit_corner(8, 6));
        assert(height(
            Place { x: 0, y: 0, z: 1 },
            Place { x: 1, y: 0, z: 1 },
            Place { x: 1, y: 1, z: 1 },
            d,
        ) == -1 + d.z) by (nonlinear_arith);
    } else if f == 2 {
        assert(place(face[0]) == unit_corner(8, 0));
        assert(place(face[1]) == unit_corner(8, 1));
        assert(place(face[2]) == unit_corner(8, 5));
        assert(height(
            Place { x: 0, y: 0, z: 0 },
            Place { x: 1, y: 0, z: 0 },
            Place { x: 1, y: 0, z: 1 },
            d,
        ) == 0 - d.y) by (nonlinear_arith);
    } else if f == 3 {
        assert(place(face[0]) == unit_corner(8, 1));
        assert(place(face[1]) == unit_corner(8, 2));
        assert(place(face[2]) == unit_corner(8, 6));
        assert(height(
            Place { x: 1, y: 0, z: 0 },
            Place { x: 1, y: 1, z: 0 },
            Place { x: 1, y: 1, z: 1 },
            d,
        ) == -1 + d.x) by (nonlinear_arith);
    } else if f == 4 {
        assert(place(face[0]) == unit_corner(8, 2));
        assert(place(face[1]) == unit_corner(8, 3));
        assert(place(face[2]) == unit_corner(8, 7));
        assert(height(
            Place { x: 1, y: 1, z: 0 },
            Place { x: 0, y: 1, z: 0 },
            Place { x: 0, y: 1, z: 1 },
            d,
        ) == -1 + d.y) by (nonlinear_arith);
    } else {
        assert(place(face[0]) == unit_corner(8, 3));
        assert(place(face[1]) == unit_corner(8, 0));
        assert(place(face[2]) == unit_corner(8, 4));
        assert(height(
            Place { x: 0, y: 1, z: 0 },
            Place { x: 0, y: 0, z: 0 },
            Place { x: 0, y: 0, z: 1 },
            d,
        ) == 0 - d.x) by (nonlinear_arith);
    }
}

/// Each face of a prism is seen from outside, as those of a hexahedron are.
pub proof fn prism_faces_turn_outward(
    nodes: Seq<usize>,
    place: spec_fn(usize) -> Place,
    f: int,
    m: int,
)
    requires
        nodes.len() == 6,
        forall|i: int| 0 <= i < 6 ==> place(#[trigger] nodes[i]) == unit_corner(6, i),
        0 <= f < local_faces(nodes).len(),
        0 <= m < 6,
        !local_faces(nodes)[f].contains(nodes[m]),
    ensures
        ({
            let face = local_faces(nodes)[f];
            height(place(face[0]), place(face[1]), place(face[2]), place(nodes[m])) < 0
        }),
{
    let face = local_faces(nodes)[f];
    assert(face[0] != nodes[m] && face[1] != nodes[m] && face[2] != nodes[m]);
    if f >= 2 {
        assert(face[3] != nodes[m]);
    }
    assert(unit_corner(6, 0) == (Place { x: 0, y: 0, z: 0 }));
    assert(unit_corner(6, 1) == (Place { x: 1, y: 0, z: 0 }));
    assert(unit_corner(6, 2) == (Place { x: 0, y: 1, z: 0 }));
    assert(unit_corner(6, 3) == (Place { x: 0, y: 0, z: 1 }));
    assert(unit_corner(6, 4) == (Place { x: 1, y: 0, z: 1 }));
    assert(unit_corner(6, 5) == (Place { x: 0, y: 1, z: 1 }));
    let d = place(nodes[m]);
    assert(d == unit_corner(6, m));
    if f == 0 {
        assert(place(face[0]) == unit_corner(6, 0));
        assert(place(face[1]) == unit_corner(6, 2));
        assert(place(face[2]) == unit_corner(6, 1));
        assert(height(
            Place { x: 0, y: 0, z: 0 },
            Place { x: 0, y: 1, z: 0 },
            Place { x: 1, y: 0, z: 0 },
            d,
        ) == 0 - d.z) by (nonlinear_arith);
    } else if f == 1 {
        assert(place(face[0]) == unit_corner(6, 3));
        assert(place(face[1]) == unit_corner(6, 4));
        assert(place(face[2]) == unit_corner(6, 5));
        assert(height(
            Place { x: 0, y: 0, z: 1 },
            Place { x: 1, y: 0, z: 1 },
            Place { x: 0, y: 1, z: 1 },
            d,
        ) == -1 + d.z) by (nonlinear_arith);
    } else if f == 2 {
        assert(place(face[0]) == unit_corner(6, 0));
        assert(place(face[1]) == unit_corner(6, 1));
        assert(place(face[2]) == unit_corner(6, 4));
        assert(height(
            Place { x: 0, y: 0, z: 0 },
            Place { x: 1, y: 0, z: 0 },
            Place { x: 1, y: 0, z: 1 },
            d,
        ) == 0 - d.y) by (nonlinear_arith);
    } else if f == 3 {
        assert(place(face[0]) == unit_corner(6, 1));
        assert(place(face[1]) == unit_corner(6, 2));
        assert(place(face[2]) == unit_corner(6, 5));
        assert(height(
            Place { x: 1, y: 0, z: 0 },
            Place { x: 0, y: 1, z: 0 },
            Place { x: 0, y: 1, z: 1 },
            d,
        ) == -1 + d.x + d.y) by (nonlinear_arith);
    } else {
        assert(place(face[0]) == unit_corner(6, 2));
        assert(place(face[1]) == unit_corner(6, 0));
        assert(place(face[2]) == unit_corner(6, 3));
        assert(height(
            Place { x: 0, y: 1, z: 0 },
            Place { x: 0, y: 0, z: 0 },
            Place { x: 0, y: 0, z: 1 },
            d,
        ) == 0 - d.x) by (nonlinear_arith);
    }
}

/// Whether one of the first `k` faces of cell `c` has these nodes, in whatever
/// order.
pub open spec fn has_face(cells: Seq<Cell>, c: int, k: int, key: Seq<usize>) -> bool {
    exists|f: int|
        0 <= f < k && f < local_faces(cells[c].nodes@).len() && face_keys::face_key(
            #[trigger] local_faces(cells[c].nodes@)[f],
        ) == key
}

/// Whether one of the first `n` cells, or one of the first `k` faces of the cell
/// behind them, has these nodes.
spec fn seen(cells: Seq<Cell>, n: int, k: int, c: int, key: Seq<usize>) -> bool {
    (0 <= c < n && has_face(cells, c, 6, key)) || (c == n && has_face(cells, c, k, key))
}

/// Whether a face belongs to the first cell that has its nodes, and is shared with
/// the second one, if there is one.
spec fn is_paired(cells: Seq<Cell>, n: int, k: int, face: FaceShape) -> bool {
    let key = face_keys::face_key(face.nodes);
    &&& seen(cells, n, k, face.owner as int, key)
    &&& local_faces(cells[face.owner as int].nodes@).contains(face.nodes)
    &&& match face.neighbour {
        None => forall|c: int| #[trigger] seen(cells, n, k, c, key) ==> c == face.owner,
        Some(other) => face.owner < other && seen(cells, n, k, other as int, key) && forall|c: int|
            #[trigger] seen(cells, n, k, c, key) ==> c == face.owner || c >= other,
    }
}

spec fn are_paired(cells: Seq<Cell>, n: int, k: int, state: Shapes) -> bool {
    &&& face_keys::distinct(keys_of(state.faces))
    &&& forall|i: int| 0 <= i < state.faces.len() ==> is_paired(cells, n, k, #[trigger] state.faces[i])
    &&& forall|c: int, key: Seq<usize>| #[trigger]
        seen(cells, n, k, c, key) ==> face_keys::place_of(keys_of(state.faces), key) is Some
}

/// Whether no two faces of a cell have the same nodes.
pub open spec fn has_distinct_faces(cell: Cell) -> bool {
    let local = local_faces(cell.nodes@);
    forall|i: int, j: int|
        0 <= i < j < local.len() ==> face_keys::face_key(#[trigger] local[i])
            != face_keys::face_key(#[trigger] local[j])
}

proof fn lemma_met_is_paired(cells: Seq<Cell>, n: int, k: int, state: Shapes)
    requires
        0 <= n < cells.len(),
        cells.len() <= usize::MAX,
        0 <= k < 6,
        has_distinct_faces(cells[n]),
        are_paired(cells, n, k, state),
    ensures
        are_paired(
            cells,
            n,
            k + 1,
            state.met(n as usize, local_faces(cells[n].nodes@)[k]),
        ),
{
    let local = local_faces(cells[n].nodes@);
    assert(local.len() == 6);
    let nodes = local[k];
    let key = face_keys::face_key(nodes);
    let keys = keys_of(state.faces);
    let after = state.met(n as usize, nodes);
    assert forall|c: int, other: Seq<usize>| #[trigger]
        seen(cells, n, k + 1, c, other) <==> seen(cells, n, k, c, other) || (c == n && other == key) by {
        if seen(cells, n, k + 1, c, other) && !(0 <= c < n && has_face(cells, c, 6, other)) {
            let f = choose|f: int|
                0 <= f < k + 1 && f < local.len() && face_keys::face_key(
                    #[trigger] local_faces(cells[c].nodes@)[f],
                ) == other;
            if f < k {
                assert(has_face(cells, c, k, other));
            }
        }
        if seen(cells, n, k, c, other) && c == n {
            if has_face(cells, c, k, other) {
                let f = choose|f: int|
                    0 <= f < k && f < local.len() && face_keys::face_key(
                        #[trigger] local_faces(cells[c].nodes@)[f],
                    ) == other;
                assert(has_face(cells, c, k + 1, other));
            }
        }
        if c == n && other == key {
            assert(face_keys::face_key(local_faces(cells[c].nodes@)[k]) == other);
            assert(has_face(cells, c, k + 1, other));
        }
    }
    assert(!seen(cells, n, k, n, key)) by {
        if has_face(cells, n, k, key) {
            let f = choose|f: int|
                0 <= f < k && f < local.len() && face_keys::face_key(
                    #[trigger] local_faces(cells[n].nodes@)[f],
                ) == key;
            assert(face_keys::face_key(local[f]) != face_keys::face_key(local[k]));
        }
    }
    face_keys::lemma_place_holds(keys, key, 0);
    match face_keys::place_of(keys, key) {
        Some(at) => {
            assert(keys[at] == key);
            assert(is_paired(cells, n, k, state.faces[at]));
            if state.faces[at].neighbour is None {
                lemma_keys_updated(state.faces, at, n as usize);
            }
            assert forall|i: int| 0 <= i < after.faces.len() implies is_paired(
                cells,
                n,
                k + 1,
                #[trigger] after.faces[i],
            ) by {
                assert(is_paired(cells, n, k, state.faces[i]));
                let own = face_keys::face_key(after.faces[i].nodes);
                if i != at {
                    assert(keys[i] == own);
                    assert(own != key);
                } else {
                    let owner = state.faces[at].owner as int;
                    assert(seen(cells, n, k, owner, key));
                    assert(owner < n);
                    if state.faces[at].neighbour is Some {
                        assert(seen(cells, n, k, state.faces[at].neighbour->0 as int, key));
                    }
                    assert(seen(cells, n, k + 1, owner, key));
                    assert(seen(cells, n, k + 1, n, key));
                    assert forall|c: int| #[trigger]
                        seen(cells, n, k + 1, c, key) implies c == owner || c
                        >= after.faces[i].neighbour->0 by {
                        if c != n {
                            assert(seen(cells, n, k, c, key));
                        }
                    }
                }
            }
            assert(keys_of(after.faces) == keys);
        },
        None => {
            let face = FaceShape { nodes, owner: n as usize, neighbour: None };
            assert(keys_of(after.faces) =~= keys.push(key));
            assert forall|i: int, j: int|
                0 <= i < j < keys_of(after.faces).len() implies keys_of(after.faces)[i] != keys_of(
                after.faces,
            )[j] by {
                if j == keys.len() {
                    assert(keys[i] != key);
                }
            }
            assert forall|c: int| !#[trigger] seen(cells, n, k, c, key) by {}
            assert forall|i: int| 0 <= i < after.faces.len() implies is_paired(
                cells,
                n,
                k + 1,
                #[trigger] after.faces[i],
            ) by {
                if i < state.faces.len() {
                    assert(is_paired(cells, n, k, state.faces[i]));
                    assert(keys[i] != key);
                } else {
                    assert(after.faces[i] == face);
                    assert(local[k] == nodes);
                    assert(seen(cells, n, k + 1, n, key));
                    assert(local_faces(cells[face.owner as int].nodes@).contains(face.nodes));
                }
            }
            assert forall|c: int, other: Seq<usize>| #[trigger]
                seen(cells, n, k + 1, c, other) implies face_keys::place_of(
                keys_of(after.faces),
                other,
            ) is Some by {
                let all = keys_of(after.faces);
                face_keys::lemma_place_holds(all, other, 0);
                face_keys::lemma_place_holds(keys, other, 0);
                if face_keys::place_of(all, other) is None {
                    if other == key {
                        assert(all[keys.len() as int] == other);
                    } else {
                        assert(seen(cells, n, k, c, other));
                        let at = face_keys::place_of(keys, other)->0;
                        assert(all[at] == keys[at]);
                    }
                }
            }
        },
    }
}

proof fn lemma_cells_are_paired(cells: Seq<Cell>, n: int, k: int)
    requires
        0 <= n < cells.len(),
        cells.len() <= usize::MAX,
        0 <= k <= 6,
        forall|c: int| 0 <= c < cells.len() ==> has_distinct_faces(#[trigger] cells[c]),
    ensures
        are_paired(
            cells,
            n,
            k,
            shapes_of(cells, n).met_all(n as usize, local_faces(cells[n].nodes@), k),
        ),
    decreases n, k,
{
    if k > 0 {
        lemma_cells_are_paired(cells, n, k - 1);
        assert(has_distinct_faces(cells[n]));
        lemma_met_is_paired(
            cells,
            n,
            k - 1,
            shapes_of(cells, n).met_all(n as usize, local_faces(cells[n].nodes@), k - 1),
        );
    } else if n > 0 {
        lemma_cells_are_paired(cells, n - 1, 6);
        let state = shapes_of(cells, n);
        assert(local_faces(cells[n - 1].nodes@).len() == 6);
        assert forall|c: int, key: Seq<usize>| #[trigger]
            seen(cells, n, 0, c, key) <==> seen(cells, n - 1, 6, c, key) by {}
        assert forall|i: int| 0 <= i < state.faces.len() implies is_paired(
            cells,
            n,
            0,
            #[trigger] state.faces[i],
        ) by {
            assert(is_paired(cells, n - 1, 6, state.faces[i]));
            let key = face_keys::face_key(state.faces[i].nodes);
            assert forall|c: int| #[trigger] seen(cells, n, 0, c, key) implies seen(
                cells,
                n - 1,
                6,
                c,
                key,
            ) by {}
            assert(seen(cells, n - 1, 6, state.faces[i].owner as int, key));
            if state.faces[i].neighbour is Some {
                assert(seen(cells, n - 1, 6, state.faces[i].neighbour->0 as int, key));
            }
        }
        assert forall|c: int, key: Seq<usize>| #[trigger]
            seen(cells, n, 0, c, key) implies face_keys::place_of(
            keys_of(state.faces),
            key,
        ) is Some by {
            assert(seen(cells, n - 1, 6, c, key));
        }
    }
}

/// The faces of a mesh whose cells have no face twice: each is a face of its
/// owner, as the owner sees it; the owner is the first cell that has its nodes, the
/// neighbour is the second one, and without one no other cell has them.
pub proof fn faces_pair_their_cells(cells: Seq<Cell>, at: int, c: int)
    requires
        cells.len() <= usize::MAX,
        forall|i: int| 0 <= i < cells.len() ==> has_distinct_faces(#[trigger] cells[i]),
        0 <= at < shapes_of(cells, cells.len() as int).faces.len(),
        0 <= c < cells.len(),
    ensures
        ({
            let face = shapes_of(cells, cells.len() as int).faces[at];
            let key = face_keys::face_key(face.nodes);
            &&& face.owner < cells.len()
            &&& local_faces(cells[face.owner as int].nodes@).contains(face.nodes)
            &&& has_face(cells, c, 6, key) ==> c == face.owner || (face.neighbour matches Some(
                other,
            ) && c >= other)
            &&& (face.neighbour matches Some(other) ==> face.owner < other < cells.len()
                && has_face(cells, other as int, 6, key))
        }),
{
    let n = cells.len() - 1;
    lemma_cells_are_paired(cells, n, 6);
    let state = shapes_of(cells, cells.len() as int);
    assert(local_faces(cells[n].nodes@).len() == 6);
    let face = state.faces[at];
    assert(is_paired(cells, n, 6, face));
    let key = face_keys::face_key(face.nodes);
    assert(seen(cells, n, 6, c, key) <==> has_face(cells, c, 6, key));
    assert(seen(cells, n, 6, face.owner as int, key));
    if face.neighbour is Some {
        assert(seen(cells, n, 6, face.neighbour->0 as int, key));
    }
}

/// Every face of every cell is among the faces of the mesh.
pub proof fn no_face_is_lost(cells: Seq<Cell>, c: int, f: int)
    requires
        cells.len() <= usize::MAX,
        forall|i: int| 0 <= i < cells.len() ==> has_distinct_faces(#[trigger] cells[i]),
        0 <= c < cells.len(),
        0 <= f < 6,
    ensures
        exists|at: int|
            0 <= at < shapes_of(cells, cells.len() as int).faces.len() && face_keys::face_key(
                #[trigger] shapes_of(cells, cells.len() as int).faces[at].nodes,
            ) == face_keys::face_key(local_faces(cells[c].nodes@)[f]),
{
    let n = cells.len() - 1;
    lemma_cells_are_paired(cells, n, 6);
    let state = shapes_of(cells, cells.len() as int);
    assert(local_faces(cells[n].nodes@).len() == 6);
    assert(local_faces(cells[c].nodes@).len() == 6);
    let key = face_keys::face_key(local_faces(cells[c].nodes@)[f]);
    assert(has_face(cells, c, 6, key));
    assert(seen(cells, n, 6, c, key));
    let keys = keys_of(state.faces);
    face_keys::lemma_place_holds(keys, key, 0);
    let at = face_keys::place_of(keys, key)->0;
    assert(face_keys::face_key(state.faces[at].nodes) == key);
}

/// A face on the boundary gets the patch of the last boundary element on its
/// nodes: the cleaned name of the group of its tag. Without such an element it is
/// one of the default faces, and between two cells it has no patch.
pub proof fn patch_is_that_of_its_element(
    names: Seq<PhysicalName>,
    boundary: Seq<BoundaryFace>,
    face: FaceShape,
    at: int,
)
    requires
        0 <= at < boundary.len(),
    ensures
        face.neighbour is Some ==> patch_of(names, boundary, face) is None,
        face.neighbour is None && face_keys::face_key(boundary[at].nodes@) == face_keys::face_key(
            face.nodes,
        ) && (forall|i: int|
            at < i < boundary.len() ==> face_keys::face_key(#[trigger] boundary[i].nodes@)
                != face_keys::face_key(face.nodes)) ==> patch_of(names, boundary, face) == Some(
            (
                mesh::sanitized(mesh::group_name(names, boundary[at].physical_tag)),
                Some(boundary[at].physical_tag),
            ),
        ),
        face.neighbour is None && (forall|i: int|
            0 <= i < boundary.len() ==> face_keys::face_key(#[trigger] boundary[i].nodes@)
                != face_keys::face_key(face.nodes)) ==> patch_of(names, boundary, face) == Some(
            ("defaultFaces"@, None::<i32>),
        ),
{
    let keys = boundary_keys(boundary);
    lemma_last_place(keys, face_keys::face_key(face.nodes), keys.len() as int);
    let key = face_keys::face_key(face.nodes);
    assert(keys[at] == face_keys::face_key(boundary[at].nodes@));
    if let Some(place) = last_place(keys, key, keys.len() as int) {
        assert(keys[place] == face_keys::face_key(boundary[place].nodes@));
    }
}

proof fn lemma_last_place(keys: Seq<Seq<usize>>, key: Seq<usize>, n: int)
    requires
        0 <= n <= keys.len(),
    ensures
        match last_place(keys, key, n) {
            Some(at) => 0 <= at < n && keys[at] == key && forall|i: int|
                at < i < n ==> #[trigger] keys[i] != key,
            None => forall|i: int| 0 <= i < n ==> #[trigger] keys[i] != key,
        },
    decreases n,
{
    if n > 0 {
        lemma_last_place(keys, key, n - 1);
    }
}

/// How many boundary elements lie on no face is zero exactly where each lies on one,
/// and never more than there are elements.
pub proof fn missing_faces_are_counted(keys: Seq<Seq<usize>>, known: Seq<Seq<usize>>, n: int)
    requires
        0 <= n <= keys.len(),
    ensures
        missing(keys, known, n) <= n,
        missing(keys, known, n) == 0 <==> forall|i: int|
            0 <= i < n ==> known.contains(#[trigger] keys[i]),
    decreases n,
{
    if n > 0 {
        missing_faces_are_counted(keys, known, n - 1);
        let key = keys[n - 1];
        face_keys::lemma_place_holds(known, key, 0);
        if face_keys::place_of(known, key) is None {
            assert(!known.contains(keys[n - 1]));
        } else {
            let at = face_keys::place_of(known, key)->0;
            assert(known[at] == key);
        }
    }
}

/// Every key of a boundary element is among the first ones, once; so as many elements
/// repeat another one as there are more elements than first ones.
pub proof fn first_keys_are_distinct(keys: Seq<Seq<usize>>, n: int)
    requires
        0 <= n <= keys.len(),
    ensures
        face_keys::distinct(first_keys(keys, n)),
        forall|i: int| 0 <= i < n ==> first_keys(keys, n).contains(#[trigger] keys[i]),
        forall|k: int|
            0 <= k < first_keys(keys, n).len() ==> keys.contains(#[trigger] first_keys(keys, n)[k]),
    decreases n,
{
    if n > 0 {
        first_keys_are_distinct(keys, n - 1);
        let earlier = first_keys(keys, n - 1);
        let all = first_keys(keys, n);
        if !earlier.contains(keys[n - 1]) {
            assert(all == earlier.push(keys[n - 1]));
            assert(all[earlier.len() as int] == keys[n - 1]);
            assert forall|i: int, j: int| 0 <= i < j < all.len() implies all[i] != all[j] by {
                if j == earlier.len() {
                    assert(earlier.contains(earlier[i]));
                }
            }
            assert forall|i: int| 0 <= i < n implies all.contains(#[trigger] keys[i]) by {
                if i < n - 1 {
                    assert(earlier.contains(keys[i]));
                    let k = choose|k: int| 0 <= k < earlier.len() && earlier[k] == keys[i];
                    assert(all[k] == keys[i]);
                }
            }
            assert forall|k: int| 0 <= k < all.len() implies keys.contains(#[trigger] all[k]) by {
                if k < earlier.len() {
                    assert(all[k] == earlier[k]);
                } else {
                    assert(all[k] == keys[n - 1]);
                }
            }
        }
    }
}

} // verus!
